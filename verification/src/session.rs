use vstd::prelude::*;

use crate::vertex::Vertex;

verus! {

/// The fixed size of the interactive canvas, in pixels.
pub const CANVAS_WIDTH: i32 = 1280;

pub const CANVAS_HEIGHT: i32 = 960;

/// Whether a view-space point falls on the canvas: strictly right of and
/// below the pan offset, strictly inside the canvas extent. The renderer
/// culls edges whose endpoints both fail this.
pub fn visible(point: Vertex, offset: Vertex) -> (r: bool)
    ensures
        r == (point.x > offset.x && point.y > offset.y && point.x < CANVAS_WIDTH && point.y
            < CANVAS_HEIGHT),
{
    point.x > offset.x && point.y > offset.y && point.x < CANVAS_WIDTH && point.y < CANVAS_HEIGHT
}

/// The held state of the keys that pan or zoom the view while pressed.
#[derive(Clone, Copy, Debug, PartialEq, Eq, Structural)]
pub struct Keys {
    pub left: bool,
    pub right: bool,
    pub up: bool,
    pub down: bool,
    pub zoom_out: bool,
    pub zoom_in: bool,
}

/// The keyboard inputs the session reacts to; anything else is `Other`.
#[derive(Clone, Copy, Debug, PartialEq, Eq, Structural)]
pub enum Key {
    Equals,
    Minus,
    W,
    A,
    S,
    D,
    F,
    E,
    C,
    Other,
}

/// The session's discrete state: the held pan and zoom keys, the two
/// visibility toggles, and the pending one-shot export request. The
/// toggles only affect what the renderer draws; they never touch the
/// mesh cache. The continuous view transform itself is the renderer's.
#[derive(Clone, Copy, Debug, PartialEq, Eq, Structural)]
pub struct Session {
    pub keys: Keys,
    pub show_faces: bool,
    pub show_edges: bool,
    pub save: bool,
}

/// The state after a pan or zoom key changes its held state: the matching
/// flag takes `pressed`, everything else stays.
pub open spec fn spec_press(s: Session, key: Key, pressed: bool) -> Session {
    match key {
        Key::Equals => (Session { keys: Keys { zoom_in: pressed, ..s.keys }, ..s }),
        Key::Minus => (Session { keys: Keys { zoom_out: pressed, ..s.keys }, ..s }),
        Key::W => (Session { keys: Keys { up: pressed, ..s.keys }, ..s }),
        Key::A => (Session { keys: Keys { left: pressed, ..s.keys }, ..s }),
        Key::S => (Session { keys: Keys { down: pressed, ..s.keys }, ..s }),
        Key::D => (Session { keys: Keys { right: pressed, ..s.keys }, ..s }),
        _ => s,
    }
}

/// The state after a key goes down: `F` and `E` toggle the two
/// visibilities, `C` requests one export, anything else is a held-key
/// press.
pub open spec fn spec_key_down(s: Session, key: Key) -> Session {
    match key {
        Key::F => (Session { show_faces: !s.show_faces, ..s }),
        Key::E => (Session { show_edges: !s.show_edges, ..s }),
        Key::C => (Session { save: true, ..s }),
        _ => spec_press(s, key, true),
    }
}

impl Session {
    /// A fresh session: nothing held, faces hidden, edges shown, no
    /// export pending.
    pub fn new() -> (s: Session)
        ensures
            s == (Session {
                keys: Keys {
                    left: false,
                    right: false,
                    up: false,
                    down: false,
                    zoom_out: false,
                    zoom_in: false,
                },
                show_faces: false,
                show_edges: true,
                save: false,
            }),
    {
        Session {
            keys: Keys {
                left: false,
                right: false,
                up: false,
                down: false,
                zoom_out: false,
                zoom_in: false,
            },
            show_faces: false,
            show_edges: true,
            save: false,
        }
    }

    /// Records a pan or zoom key changing its held state.
    pub fn handle_key_press(&mut self, key: Key, pressed: bool)
        ensures
            *final(self) == spec_press(*old(self), key, pressed),
    {
        match key {
            Key::Equals => self.keys.zoom_in = pressed,
            Key::Minus => self.keys.zoom_out = pressed,
            Key::W => self.keys.up = pressed,
            Key::A => self.keys.left = pressed,
            Key::S => self.keys.down = pressed,
            Key::D => self.keys.right = pressed,
            _ => {},
        }
    }

    /// Reacts to a key going down: toggles a visibility, requests an
    /// export, or records a held key.
    pub fn key_down_event(&mut self, key: Key)
        ensures
            *final(self) == spec_key_down(*old(self), key),
    {
        match key {
            Key::F => self.show_faces = !self.show_faces,
            Key::E => self.show_edges = !self.show_edges,
            Key::C => self.save = true,
            _ => self.handle_key_press(key, true),
        }
    }

    /// Reacts to a key going up: releases a held key.
    pub fn key_up_event(&mut self, key: Key)
        ensures
            *final(self) == spec_press(*old(self), key, false),
    {
        self.handle_key_press(key, false);
    }

    /// Consumes a pending export request, exactly once per request: says
    /// whether an export is due and clears the flag, leaving the rest of
    /// the session untouched.
    pub fn take_save(&mut self) -> (requested: bool)
        ensures
            requested == old(self).save,
            *final(self) == (Session { save: false, ..*old(self) }),
    {
        let requested = self.save;
        self.save = false;
        requested
    }
}

} // verus!
