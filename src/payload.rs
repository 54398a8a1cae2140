//! Payload truncation and rendering.
use vstd::prelude::*;
use vstd::utf8::*;
use crate::text::{push_str, string_from_chars};

verus! {

/// What lossy UTF-8 decoding makes of a byte sequence.
pub uninterp spec fn lossy_text_of(b: Seq<u8>) -> Seq<char>;

/// The pretty-printed form of a text when it parses as a JSON document.
pub uninterp spec fn json_pretty_of(s: Seq<char>) -> Option<Seq<char>>;

/// Relies on `String::from_utf8`: it succeeds exactly on valid UTF-8 and then
/// holds the decoded characters.
#[verifier::external_body]
fn decode_utf8_exact(b: Vec<u8>) -> (r: Option<String>)
    ensures
        r.is_some() == valid_utf8(b@),
        r matches Some(s) ==> s@ == decode_utf8(b@),
{
    String::from_utf8(b).ok()
}

/// Relies on `String::from_utf8_lossy`: invalid sequences become replacement
/// characters, valid UTF-8 is decoded unchanged.
#[verifier::external_body]
fn decode_utf8_lossy(b: &Vec<u8>) -> (r: String)
    ensures
        r@ == lossy_text_of(b@),
        valid_utf8(b@) ==> r@ == decode_utf8(b@),
{
    String::from_utf8_lossy(b.as_slice()).into_owned()
}

/// Relies on `serde_json::from_str` into a `serde_json::Value`, printed with
/// the alternate (pretty) form of its `Display`.
#[verifier::external_body]
fn json_pretty(s: &str) -> (r: Option<String>)
    ensures
        r is None <==> json_pretty_of(s@) is None,
        r matches Some(p) ==> json_pretty_of(s@) == Some(p@),
{
    match serde_json::from_str::<serde_json::Value>(s) {
        Ok(v) => Some(format!("{v:#}")),
        Err(_) => None,
    }
}

/// The bytes kept of a payload under a size limit.
pub open spec fn kept_of(b: Seq<u8>, limit: nat) -> Seq<u8> {
    if b.len() > limit {
        b.subrange(0, limit as int)
    } else {
        b
    }
}

/// The text appended to the rendering of a truncated payload.
pub const TRUNCATION_MARKER: &'static str = "…truncated";

pub open spec fn hex_digit(n: u8) -> char
    recommends
        n < 16,
{
    if n < 10 {
        ((n + 48) as u8) as char
    } else {
        ((n + 87) as u8) as char
    }
}

/// Lower-case hexadecimal, two digits per byte.
pub open spec fn hex_of(b: Seq<u8>) -> Seq<char>
    decreases b.len(),
{
    if b.len() == 0 {
        Seq::empty()
    } else {
        hex_of(b.drop_last()) + seq![hex_digit(b.last() / 16), hex_digit(b.last() % 16)]
    }
}

/// The display text of kept bytes whose original size was `size`.
pub open spec fn rendered(b: Seq<u8>, size: nat, pretty: bool) -> Seq<char> {
    if b.len() < size {
        lossy_text_of(b) + TRUNCATION_MARKER@
    } else if !pretty {
        lossy_text_of(b)
    } else if valid_utf8(b) {
        match json_pretty_of(decode_utf8(b)) {
            Some(j) => j,
            None => decode_utf8(b),
        }
    } else {
        hex_of(b)
    }
}

/// A payload as stored: the kept bytes and the size it had on the wire.
pub struct Payload {
    pub bytes: Vec<u8>,
    pub original_size: usize,
}

fn hex_digit_exec(n: u8) -> (c: char)
    requires
        n < 16,
    ensures
        c == hex_digit(n),
{
    if n < 10 {
        (n + 48) as char
    } else {
        (n + 87) as char
    }
}

/// Renders bytes as lower-case hexadecimal.
pub fn hex_string(b: &Vec<u8>) -> (r: String)
    ensures
        r@ == hex_of(b@),
{
    let mut out: Vec<char> = Vec::new();
    let mut i: usize = 0;
    while i < b.len()
        invariant
            i <= b.len(),
            out@ == hex_of(b@.subrange(0, i as int)),
        decreases b.len() - i,
    {
        let x = b[i];
        out.push(hex_digit_exec(x / 16));
        out.push(hex_digit_exec(x % 16));
        i = i + 1;
        assert(b@.subrange(0, i as int).drop_last() =~= b@.subrange(0, i - 1 as int));
    }
    assert(b@.subrange(0, b.len() as int) =~= b@);
    string_from_chars(&out)
}

impl Payload {
    pub open spec fn wf(&self) -> bool {
        self.bytes.len() <= self.original_size
    }

    pub open spec fn spec_is_truncated(&self) -> bool {
        self.bytes.len() < self.original_size
    }

    /// Keeps at most `limit` bytes and records the true size.
    pub fn truncated(payload: Vec<u8>, limit: usize) -> (r: Payload)
        ensures
            r.wf(),
            r.bytes@ == kept_of(payload@, limit as nat),
            r.original_size == payload.len(),
            r.spec_is_truncated() == (payload.len() > limit),
    {
        let original_size = payload.len();
        let mut bytes = payload;
        if original_size > limit {
            bytes.truncate(limit);
        }
        Payload { bytes, original_size }
    }

    /// Keeps the whole payload.
    pub fn unlimited(payload: Vec<u8>) -> (r: Payload)
        ensures
            r.wf(),
            r.bytes@ == payload@,
            r.original_size == payload.len(),
            !r.spec_is_truncated(),
    {
        let original_size = payload.len();
        Payload { bytes: payload, original_size }
    }

    pub fn is_truncated(&self) -> (r: bool)
        ensures
            r == self.spec_is_truncated(),
    {
        self.bytes.len() < self.original_size
    }

    /// The display text: a truncated payload is shown as lossy text with a
    /// marker and never parsed; otherwise pretty mode tries UTF-8 then JSON,
    /// falling back to hexadecimal for bytes that are not text.
    pub fn render(&self, pretty: bool) -> (r: String)
        ensures
            r@ == rendered(self.bytes@, self.original_size as nat, pretty),
    {
        if self.bytes.len() < self.original_size {
            let text = decode_utf8_lossy(&self.bytes);
            let mut out: Vec<char> = Vec::new();
            push_str(&mut out, text.as_str());
            push_str(&mut out, TRUNCATION_MARKER);
            string_from_chars(&out)
        } else if !pretty {
            decode_utf8_lossy(&self.bytes)
        } else {
            match decode_utf8_exact(self.bytes.clone()) {
                Some(text) => match json_pretty(text.as_str()) {
                    Some(j) => j,
                    None => text,
                },
                None => hex_string(&self.bytes),
            }
        }
    }
}

} // verus!
