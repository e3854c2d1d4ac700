//! Core of a touchpad gesture daemon: the gesture state machine, the
//! fingers-keyed rule index with hot reload, bounded queues with their
//! back-pressure policies, relative-move coalescing for the synthetic
//! pointer, and the textual rule configuration with its parser and
//! serialiser. All I/O (input devices, sockets, subprocesses, timers)
//! lives outside this crate and exchanges plain values with it.

pub mod cache;
pub mod config;
pub mod event_handler;
pub mod gestures;
pub mod ipc;
pub mod mouse_handler;
pub mod numfmt;
pub mod parser;
pub mod subst;
pub mod throttle;
pub mod utils;
pub mod xdo_handler;

use vstd::prelude::*;

verus! {

/// Commands understood by the companion command-line client.
#[derive(Clone, Copy, Debug, PartialEq, Eq, Structural)]
pub enum Commands {
    /// Reload the configuration.
    Reload,
    /// Start the daemon.
    Start,
    /// Install the user service file.
    InstallService { print: bool },
    /// Write the default configuration file.
    GenerateConfig { print: bool, force: bool },
}

/// The lower-case form of an ASCII byte.
pub open spec fn lower_byte(b: u8) -> u8 {
    if 0x41 <= b && b <= 0x5A {
        (b + 0x20) as u8
    } else {
        b
    }
}

/// The bytes of `wayland`.
pub open spec fn wayland_tok() -> Seq<u8> {
    seq![0x77u8, 0x61, 0x79, 0x6C, 0x61, 0x6E, 0x64]
}

/// The byte string equals `wayland` up to ASCII case.
pub open spec fn is_wayland_name(s: Seq<u8>) -> bool {
    s.len() == wayland_tok().len() && forall|i: int|
        0 <= i < s.len() ==> lower_byte(#[trigger] s[i]) == wayland_tok()[i]
}

/// Whether the byte string says `wayland` up to ASCII case.
fn eq_wayland(s: &Vec<u8>) -> (r: bool)
    ensures
        r == is_wayland_name(s@),
{
    let mut tok: Vec<u8> = Vec::new();
    tok.push(0x77);
    tok.push(0x61);
    tok.push(0x79);
    tok.push(0x6C);
    tok.push(0x61);
    tok.push(0x6E);
    tok.push(0x64);
    proof {
        assert(tok@ =~= wayland_tok());
    }
    if s.len() != tok.len() {
        return false;
    }
    let mut i: usize = 0;
    while i < s.len()
        invariant
            tok@ == wayland_tok(),
            s@.len() == tok@.len(),
            i <= s@.len(),
            forall|j: int| 0 <= j < i ==> lower_byte(#[trigger] s@[j]) == wayland_tok()[j],
        decreases s@.len() - i,
    {
        let b = s[i];
        let low: u8 = if 0x41 <= b && b <= 0x5A {
            b + 0x20
        } else {
            b
        };
        if low != tok[i] {
            proof {
                assert(lower_byte(s@[i as int]) != wayland_tok()[i as int]);
            }
            return false;
        }
        i += 1;
    }
    true
}

/// Whether the environment names a Wayland session: a Wayland display is
/// set, or the session type says `wayland` in any case.
pub fn detect_wayland(wayland_display: Option<&Vec<u8>>, session_type: Option<&Vec<u8>>) -> (r:
    bool)
    ensures
        r == (wayland_display is Some || (match session_type {
            Option::Some(s) => is_wayland_name(s@),
            Option::None => false,
        })),
{
    if wayland_display.is_some() {
        return true;
    }
    match session_type {
        Option::None => false,
        Option::Some(s) => eq_wayland(s),
    }
}

/// The default configuration text: one three-finger drag rule, commented.
pub open spec fn default_config_spec() -> Seq<char> {
    "// Touchpad gesture rules.\n// A macOS-like three-finger drag, driving the pointer directly.\nswipe direction=\"any\" fingers=3 mouse-up-delay=500 acceleration=20\n"@
}

/// The default configuration written for a new installation.
pub fn get_default_config() -> (r: &'static str)
    ensures
        r@ == default_config_spec(),
{
    "// Touchpad gesture rules.\n// A macOS-like three-finger drag, driving the pointer directly.\nswipe direction=\"any\" fingers=3 mouse-up-delay=500 acceleration=20\n"
}

} // verus!
