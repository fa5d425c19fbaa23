//! Capture modes that a camera offers.

use crate::framerate::{fps, rounded_fps, whole_fps, Rate};
use crate::text::{append_decimal, append_signed_decimal, decimal, signed_decimal, str_eq};
use vstd::prelude::*;
use vstd::string::StringExecFns;

verus! {

/// One selectable capture mode: a resolution and pixel format, and the best frame rate that the
/// device advertises for it. The frame rate is left out where the device reports none, and the
/// pipeline then negotiates the highest one available.
#[derive(Debug, PartialEq, Eq)]
pub struct Mode {
    pub media_type: String,
    pub width: u32,
    pub height: u32,
    pub framerate: Option<Rate>,
}

impl Clone for Mode {
    fn clone(&self) -> (res: Self)
        ensures
            res == *self,
    {
        Mode {
            media_type: self.media_type.clone(),
            width: self.width,
            height: self.height,
            framerate: self.framerate,
        }
    }
}

/// The display name of a media type.
pub open spec fn format_name(media_type: Seq<char>) -> Seq<char> {
    if media_type == "image/jpeg"@ {
        "MJPEG"@
    } else if media_type == "video/x-raw"@ {
        "Raw"@
    } else {
        media_type
    }
}

/// Whether a rate can be written as a fraction.
pub open spec fn has_rate(fr: Option<Rate>) -> bool {
    fr matches Some((n, d)) && d != 0
}

/// The text by which a mode is offered to the user.
pub open spec fn mode_label(m: Mode) -> Seq<char> {
    let base = decimal(m.width as nat) + "×"@ + decimal(m.height as nat) + " · "@ + format_name(
        m.media_type@,
    );
    if has_rate(m.framerate) {
        base + " · "@ + signed_decimal(whole_fps(fps(m.framerate))) + "fps"@
    } else {
        base
    }
}

/// The capabilities that pin a source to a mode.
pub open spec fn mode_caps(m: Mode) -> Seq<char> {
    let base = m.media_type@ + ",width="@ + decimal(m.width as nat) + ",height="@ + decimal(
        m.height as nat,
    );
    match m.framerate {
        Some((n, d)) => if d != 0 {
            base + ",framerate="@ + signed_decimal(n as int) + "/"@ + signed_decimal(d as int)
        } else {
            base
        },
        None => base,
    }
}

impl Mode {
    /// The display name of the mode's media type.
    pub fn fmt_label(&self) -> (res: &str)
        ensures
            res@ == format_name(self.media_type@),
    {
        let media_type: &str = self.media_type.as_str();
        if str_eq(media_type, "image/jpeg") {
            "MJPEG"
        } else if str_eq(media_type, "video/x-raw") {
            "Raw"
        } else {
            media_type
        }
    }

    /// The text by which the mode is offered: its size, its format and, where it has a rate, the
    /// rate in whole frames per second.
    pub fn label(&self) -> (res: String)
        ensures
            res@ == mode_label(*self),
    {
        let mut out: String = String::new();
        append_decimal(&mut out, self.width as u64);
        assert(out@ =~= decimal(self.width as nat));
        out.append("×");
        append_decimal(&mut out, self.height as u64);
        out.append(" · ");
        out.append(self.fmt_label());
        match self.framerate {
            Some((n, d)) if d != 0 => {
                out.append(" · ");
                append_signed_decimal(&mut out, rounded_fps(self.framerate));
                out.append("fps");
            },
            _ => {},
        }
        out
    }

    /// Capabilities forced right after the source, so that the device negotiates this exact mode.
    /// The pixel layout is left out, so any raw layout that the device offers at this size is
    /// negotiated.
    pub fn caps_str(&self) -> (res: String)
        ensures
            res@ == mode_caps(*self),
    {
        let mut out: String = self.media_type.clone();
        out.append(",width=");
        append_decimal(&mut out, self.width as u64);
        out.append(",height=");
        append_decimal(&mut out, self.height as u64);
        match self.framerate {
            Some((n, d)) if d != 0 => {
                out.append(",framerate=");
                append_signed_decimal(&mut out, n as i64);
                out.append("/");
                append_signed_decimal(&mut out, d as i64);
            },
            _ => {},
        }
        out
    }
}

} // verus!
