//! Building blocks of a software KVM: one keyboard and mouse for several machines.
use vstd::prelude::*;

use crate::text::joined;

pub mod android;
pub mod arrangement;
pub mod autostart;
pub mod binary32;
pub mod config;
pub mod discovery;
pub mod engine;
pub mod geometry;
pub mod json;
pub mod keymap;
pub mod layout;
pub mod pairing;
pub mod parse;
pub mod platform;
pub mod proto;
pub mod reals;
pub mod report;
pub mod secure;
pub mod shell;
pub mod text;
pub mod ui;
pub mod wire;

verus! {

/// Default TCP port for both sessions and pairing.
pub const DEFAULT_PORT: u16 = 24817;

/// What can go wrong, with the text that describes it.
#[derive(Debug)]
pub enum Error {
    Io(String),
    Codec(String),
    Noise(String),
    Config(String),
    Pairing(String),
    Protocol(String),
}

impl Error {
    /// The error, as users read it.
    pub open spec fn text(&self) -> Seq<char> {
        match self {
            Error::Io(e) => "io: "@ + e@,
            Error::Codec(e) => "encode/decode: "@ + e@,
            Error::Noise(e) => "noise: "@ + e@,
            Error::Config(e) => "config: "@ + e@,
            Error::Pairing(e) => "pairing failed: "@ + e@,
            Error::Protocol(e) => "protocol: "@ + e@,
        }
    }

    /// The error, as users read it.
    pub fn to_text(&self) -> (r: String)
        ensures
            r@ == self.text(),
    {
        match self {
            Error::Io(e) => joined("io: ", e.as_str()),
            Error::Codec(e) => joined("encode/decode: ", e.as_str()),
            Error::Noise(e) => joined("noise: ", e.as_str()),
            Error::Config(e) => joined("config: ", e.as_str()),
            Error::Pairing(e) => joined("pairing failed: ", e.as_str()),
            Error::Protocol(e) => joined("protocol: ", e.as_str()),
        }
    }
}

} // verus!
