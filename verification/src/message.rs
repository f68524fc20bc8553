//! The messages of the Synergy protocol that the client forwards or sends.

use vstd::prelude::*;

verus! {

/// A message of the Synergy protocol.
#[derive(Debug)]
#[allow(inconsistent_fields)]
pub enum Message {
    /// The cursor has entered the screen of the client.
    CursorEntered { x: i16, y: i16, sequence: u32, mask: u16 },
    /// The cursor has left the screen of the client.
    CursorLeft,
    /// The mouse has moved to a position.
    MouseMove { x: i16, y: i16 },
    /// The mouse has moved by a distance.
    MouseRelativeMove { x: i16, y: i16 },
    /// A mouse button has gone down.
    MouseButtonDown { button: u8 },
    /// A mouse button has gone up.
    MouseButtonUp { button: u8 },
    /// The mouse wheel has turned.
    MouseWheel { xdelta: i16, ydelta: i16 },
    /// A key has gone down.
    KeyDown { keyid: u16, mask: u16, button: u16 },
    /// A key has gone down, under the given keyboard layout.
    KeyDownWithLanguage { keyid: u16, mask: u16, button: u16, lang: String },
    /// A key has gone up.
    KeyUp { keyid: u16, mask: u16, button: u16 },
    /// A key is held down.
    KeyRepeat { keyid: u16, mask: u16, count: u16, button: u16, lang: String },
    /// The screen saver has started (1) or stopped (0).
    ScreenSaverChange { state: u8 },
    /// All options go back to their defaults.
    ResetOptions,
    /// The connection is alive.
    KeepAlive,
    /// A clipboard is claimed.
    ClientClipboard { id: u8, sequence: u32 },
    /// The contents of a clipboard.
    ClipboardData { id: u8, sequence: u32, mark: u8, data: String },
    /// Any other message.
    Other,
}

} // verus!
