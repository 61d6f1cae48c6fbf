//! Pairing an agent with the cluster: the QR image the server sends as
//! standard Base64, and the state of the pairing dialog.

use vstd::prelude::*;
use base64::Engine;
use crate::text::{push_str, string_from};

verus! {

/// `base64::DecodeError`, carried through unread.
#[verifier::external_type_specification]
#[verifier::external_body]
pub struct ExDecodeError(base64::DecodeError);

/// The bytes that standard Base64 (RFC 4648 alphabet, `=` padding
/// required, canonical trailing bits) decodes `input` to, or none when the
/// input is not such Base64, as the `base64` crate decides it.
pub uninterp spec fn standard_base64_decode(input: Seq<u8>) -> Option<Seq<u8>>;

/// `base64::engine::general_purpose::STANDARD.decode(input)`: the decoded
/// bytes, or the crate's error for input that is not padded, canonical
/// standard Base64. Its result is named, not stated.
#[verifier::external_body]
fn base64_standard_decode(input: &[u8]) -> (r: Result<Vec<u8>, base64::DecodeError>)
    ensures
        match r {
            Ok(v) => standard_base64_decode(input@) == Some(v@),
            Err(_) => standard_base64_decode(input@) is None,
        },
{
    base64::engine::general_purpose::STANDARD.decode(input)
}

/// Why a QR image could not be read.
#[derive(Debug, Clone, Copy, PartialEq, Eq, Structural)]
pub enum QrDecodeError {
    /// The text is not standard Base64.
    InvalidBase64,
}

/// The PNG bytes of a pairing QR code sent as standard Base64 text.
pub fn decode_agent_pair_qr(qr_png_base64: &str) -> (r: Result<Vec<u8>, QrDecodeError>)
    ensures
        match r {
            Ok(v) => standard_base64_decode(vstd::utf8::encode_utf8(qr_png_base64@)) == Some(v@),
            Err(e) => e == QrDecodeError::InvalidBase64 && standard_base64_decode(
                vstd::utf8::encode_utf8(qr_png_base64@),
            ) is None,
        },
{
    match base64_standard_decode(qr_png_base64.as_bytes()) {
        Ok(v) => Ok(v),
        Err(_) => Err(QrDecodeError::InvalidBase64),
    }
}

/// The asset id of a pairing code's QR image: `wormhole-agent-pair-qr-<code>`.
pub fn agent_pair_qr_asset_id(code: &str) -> (r: String)
    ensures
        r@ == "wormhole-agent-pair-qr-"@ + code@,
{
    let mut s = string_from("wormhole-agent-pair-qr-");
    push_str(&mut s, code);
    s
}

/// A pairing code the server created.
#[derive(Debug)]
pub struct AgentPairCode {
    pub code: String,
    pub pair_url: String,
    pub qr_png_base64: String,
}

/// State of the agent pairing dialog.
#[derive(Debug)]
pub struct AgentPairDialog {
    pub open: bool,
    pub busy: bool,
    pub error: Option<String>,
    pub pair: Option<AgentPairCode>,
    /// The asset id of the decoded QR image, with its PNG bytes to load.
    pub qr: Option<(String, Vec<u8>)>,
    pub copy_ack: bool,
}

impl AgentPairDialog {
    /// A closed dialog.
    pub fn new() -> (r: Self)
        ensures
            !r.open && !r.busy && r.error is None && r.pair is None && r.qr is None && !r.copy_ack,
    {
        AgentPairDialog { open: false, busy: false, error: None, pair: None, qr: None, copy_ack: false }
    }

    /// Opens the dialog with nothing shown; the caller then requests a code.
    pub fn open(&mut self)
        ensures
            final(self).open,
            final(self).busy == old(self).busy,
            final(self).error is None,
            final(self).pair is None,
            final(self).qr is None,
            !final(self).copy_ack,
    {
        self.open = true;
        self.pair = None;
        self.error = None;
        self.qr = None;
        self.copy_ack = false;
    }

    /// Closes the dialog (a running request is forgotten).
    pub fn close(&mut self)
        ensures
            !final(self).open,
            !final(self).busy,
            final(self).error is None,
            !final(self).copy_ack,
            final(self).pair == old(self).pair,
            final(self).qr == old(self).qr,
    {
        self.open = false;
        self.busy = false;
        self.error = None;
        self.copy_ack = false;
    }

    /// Starts a code request unless one runs; true when it started (the
    /// previous code and QR image are cleared).
    pub fn begin_request(&mut self) -> (started: bool)
        ensures
            started == !old(self).busy,
            final(self).busy,
            final(self).open == old(self).open,
            started ==> final(self).error is None && final(self).pair is None && final(self).qr is None,
            !started ==> final(self).error == old(self).error && final(self).pair == old(self).pair
                && final(self).qr == old(self).qr,
            final(self).copy_ack == old(self).copy_ack,
    {
        if self.busy {
            return false;
        }
        self.busy = true;
        self.error = None;
        self.pair = None;
        self.qr = None;
        true
    }

    /// The request finished: a code is shown, with its QR image when the
    /// image text decodes; or the error is shown.
    pub fn finish_request(&mut self, result: Result<AgentPairCode, String>)
        ensures
            !final(self).busy,
            final(self).open == old(self).open,
            final(self).copy_ack == old(self).copy_ack,
            match result {
                Ok(p) => final(self).pair == Some(p) && final(self).error is None && match final(self).qr {
                    Some((id, png)) => id@ == "wormhole-agent-pair-qr-"@ + p.code@ && standard_base64_decode(
                        vstd::utf8::encode_utf8(p.qr_png_base64@),
                    ) == Some(png@),
                    None => standard_base64_decode(vstd::utf8::encode_utf8(p.qr_png_base64@)) is None,
                },
                Err(e) => final(self).error == Some(e) && final(self).pair == old(self).pair
                    && final(self).qr == old(self).qr,
            },
    {
        self.busy = false;
        match result {
            Ok(p) => {
                let qr = match decode_agent_pair_qr(p.qr_png_base64.as_str()) {
                    Ok(png) => Some((agent_pair_qr_asset_id(p.code.as_str()), png)),
                    Err(_) => None,
                };
                self.qr = qr;
                self.pair = Some(p);
                self.error = None;
            },
            Err(e) => {
                self.error = Some(e);
            },
        }
    }
}

} // verus!
