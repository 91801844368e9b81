//! Decoding of the device-capability tokens that the browser packs into the
//! request path. Malformed tokens never abort a request: every field falls
//! back to a documented default instead.

use vstd::prelude::*;
use vstd::string::StrSliceExecFns;
use vstd::string::StringExecFns;

use crate::text::spec_parse_u32;
use crate::text::parse_u32;

verus! {

/// Whether the device renders in colour or in shades of grey.
#[derive(Clone, Copy, Debug, PartialEq, Eq, Structural)]
pub enum ScreenType {
    Grayscale,
    Colour,
}

/// The display capabilities of the requesting device, decoded once per
/// request and never changed afterwards.
#[derive(Debug)]
pub struct DeviceInfo {
    pub screen_width: u32,
    pub screen_mode: ScreenType,
    pub screen_depth: u32,
    pub text_encoding: String,
}

/// A token with its one-character type prefix removed; an empty token has
/// nothing after the prefix.
pub open spec fn spec_token_rest(s: Seq<char>) -> Seq<char> {
    if s.len() >= 1 {
        s.skip(1)
    } else {
        Seq::empty()
    }
}

/// The screen mode a colour-depth token selects: 'c' means Colour, anything
/// else (including 'g' and an empty token) falls back to Grayscale.
pub open spec fn spec_mode(s: Seq<char>) -> ScreenType {
    if s.len() >= 1 && s[0] == 'c' {
        ScreenType::Colour
    } else {
        ScreenType::Grayscale
    }
}

/// The depth a colour-depth token selects: the number after the mode
/// character, or 16 (Colour) / 4 (Grayscale) when it does not read as one.
pub open spec fn spec_depth(s: Seq<char>) -> u32 {
    match spec_parse_u32(spec_token_rest(s)) {
        Some(d) => d,
        None => if spec_mode(s) == ScreenType::Colour {
            16
        } else {
            4
        },
    }
}

/// The width a width token selects, or 153 when it does not read as a number.
pub open spec fn spec_width(s: Seq<char>) -> u32 {
    match spec_parse_u32(spec_token_rest(s)) {
        Some(w) => w,
        None => 153,
    }
}

/// The remainder of a token after its type prefix, as an owned string.
fn token_rest(s: &str) -> (r: String)
    ensures
        r@ == spec_token_rest(s@),
{
    let len = s.unicode_len();
    if len == 0 {
        String::new()
    } else {
        let rest = s.substring_char(1, len);
        proof {
            assert(rest@ =~= spec_token_rest(s@));
        }
        String::from_str(rest)
    }
}

impl DeviceInfo {
    /// Decodes the three capability tokens. This never fails: each malformed
    /// field degrades to its fallback value.
    pub fn new(colour_depth: String, screen_width: String, text_encoding: String) -> (r:
        DeviceInfo)
        ensures
            r.screen_mode == spec_mode(colour_depth@),
            r.screen_depth == spec_depth(colour_depth@),
            r.screen_width == spec_width(screen_width@),
            r.text_encoding@ == spec_token_rest(text_encoding@),
    {
        let depth_token = colour_depth.as_str();
        let mode = if depth_token.unicode_len() >= 1 && depth_token.get_char(0) == 'c' {
            ScreenType::Colour
        } else {
            ScreenType::Grayscale
        };
        let depth = match parse_u32(token_rest(depth_token).as_str()) {
            Some(d) => d,
            None => match mode {
                ScreenType::Colour => 16,
                ScreenType::Grayscale => 4,
            },
        };
        let width = match parse_u32(token_rest(screen_width.as_str()).as_str()) {
            Some(w) => w,
            None => 153,
        };
        let encoding = token_rest(text_encoding.as_str());
        DeviceInfo { screen_width: width, screen_mode: mode, screen_depth: depth, text_encoding: encoding }
    }

    /// The human-readable name of the screen mode.
    pub fn mode_label(&self) -> (r: &'static str)
        ensures
            r@ == spec_mode_label(self.screen_mode),
    {
        match self.screen_mode {
            ScreenType::Colour => "Colour",
            ScreenType::Grayscale => "Grayscale/Monochrome",
        }
    }
}

/// The label the diagnostic page prints for each screen mode.
pub open spec fn spec_mode_label(m: ScreenType) -> Seq<char> {
    match m {
        ScreenType::Colour => "Colour"@,
        ScreenType::Grayscale => "Grayscale/Monochrome"@,
    }
}

} // verus!
