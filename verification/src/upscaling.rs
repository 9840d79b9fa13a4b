//! Selection of the optional NVNGX upscaler.
use vstd::prelude::*;
use vstd::string::*;
use crate::text::{debug_quoted, debug_text, str_eq};

verus! {

#[derive(Clone, Copy, Debug, PartialEq, Eq, Structural)]
pub enum UpscalingMode {
    Off,
    Dlaa,
    Dlss,
}

pub open spec fn unsupported_mode_message(raw: Seq<char>) -> Seq<char> {
    "unsupported --upscaler mode "@ + debug_text(raw) + "; expected off|dlaa|dlss"@
}

/// The mode that an `--upscaler` value selects: none or `off` turns the
/// upscaler off, `dlaa` and `dlss` name the two modes, anything else is an
/// error.
pub open spec fn upscaling_flag_outcome(raw: Option<Seq<char>>) -> Result<UpscalingMode, Seq<char>> {
    match raw {
        None => Ok(UpscalingMode::Off),
        Some(s) => if s == "off"@ {
            Ok(UpscalingMode::Off)
        } else if s == "dlaa"@ {
            Ok(UpscalingMode::Dlaa)
        } else if s == "dlss"@ {
            Ok(UpscalingMode::Dlss)
        } else {
            Err(unsupported_mode_message(s))
        },
    }
}

pub open spec fn option_str_view(raw: Option<&str>) -> Option<Seq<char>> {
    match raw {
        None => None,
        Some(s) => Some(s@),
    }
}

impl UpscalingMode {
    pub fn from_flag(raw: Option<&str>) -> (r: Result<Self, String>)
        ensures
            match r {
                Ok(mode) => upscaling_flag_outcome(option_str_view(raw)) == Ok::<
                    UpscalingMode,
                    Seq<char>,
                >(mode),
                Err(message) => upscaling_flag_outcome(option_str_view(raw)) == Err::<
                    UpscalingMode,
                    Seq<char>,
                >(message@),
            },
    {
        match raw {
            None => Ok(UpscalingMode::Off),
            Some(s) => {
                if str_eq(s, "off") {
                    Ok(UpscalingMode::Off)
                } else if str_eq(s, "dlaa") {
                    Ok(UpscalingMode::Dlaa)
                } else if str_eq(s, "dlss") {
                    Ok(UpscalingMode::Dlss)
                } else {
                    Err(
                        String::from_str("unsupported --upscaler mode ").concat(
                            debug_quoted(s).as_str(),
                        ).concat("; expected off|dlaa|dlss"),
                    )
                }
            },
        }
    }
}

pub open spec fn upscaler_disabled_notice(name: Seq<char>) -> Seq<char> {
    "NVNGX upscaler requested ("@ + name
        + ") but `nvngx` feature is disabled at compile time; running without upscaling."@
}

/// Prepares the upscaler for `mode`. This build carries no NVNGX upscaler, so
/// a request for one is answered with the notice to log, and rendering goes on
/// without upscaling; `Off` needs no notice.
pub fn initialize(mode: UpscalingMode) -> (notice: Option<String>)
    ensures
        match mode {
            UpscalingMode::Off => notice is None,
            UpscalingMode::Dlaa => notice matches Some(text) && text@ == upscaler_disabled_notice(
                "Dlaa"@,
            ),
            UpscalingMode::Dlss => notice matches Some(text) && text@ == upscaler_disabled_notice(
                "Dlss"@,
            ),
        },
{
    let name = match mode {
        UpscalingMode::Off => {
            return None;
        },
        UpscalingMode::Dlaa => "Dlaa",
        UpscalingMode::Dlss => "Dlss",
    };
    Some(
        String::from_str("NVNGX upscaler requested (").concat(name).concat(
            ") but `nvngx` feature is disabled at compile time; running without upscaling.",
        ),
    )
}

} // verus!
