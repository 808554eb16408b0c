//! The resolution presets and the scaling that each asks of the engine.

use crate::text::{decimal, push_arg, push_decimal, push_owned, same_text};
use vstd::prelude::*;
use vstd::string::*;

verus! {

/// The size of the picture that an export writes.
#[derive(Clone, Copy, Debug, PartialEq, Eq, Structural)]
pub enum Resolution {
    /// The size of the source, unchanged.
    Source,
    /// 720 lines.
    Hd720,
    /// 1080 lines.
    Hd1080,
}

/// The resolution that a preset's name stands for. Names other than `720p`
/// and `1080p`, and no name at all, stand for the source's own size.
pub open spec fn preset_resolution(preset: Option<Seq<char>>) -> Resolution {
    match preset {
        Some(name) => if name == "720p"@ {
            Resolution::Hd720
        } else if name == "1080p"@ {
            Resolution::Hd1080
        } else {
            Resolution::Source
        },
        None => Resolution::Source,
    }
}

/// The number of lines that a resolution scales to, where it scales at all.
pub open spec fn target_height(resolution: Resolution) -> Option<nat> {
    match resolution {
        Resolution::Source => None,
        Resolution::Hd720 => Some(720),
        Resolution::Hd1080 => Some(1080),
    }
}

/// The filter that scales the picture to `height` lines. The width follows
/// from the source's aspect ratio and is kept even.
pub open spec fn scale_filter(height: nat) -> Seq<char> {
    "scale=-2:"@ + decimal(height)
}

/// The arguments that make the engine scale to `resolution`: none for the
/// source's size, else `-vf` and the scale filter for the preset's height.
pub open spec fn scale_args(resolution: Resolution) -> Seq<Seq<char>> {
    match target_height(resolution) {
        Some(height) => seq!["-vf"@, scale_filter(height)],
        None => Seq::<Seq<char>>::empty(),
    }
}

/// The source's own size asks for no scale filter. Each of the two presets
/// asks for one filter, which sets the height to the preset's number of lines
/// and leaves the width to follow from the aspect ratio.
pub proof fn law_presets_scale_to_their_height()
    ensures
        scale_args(Resolution::Source) == Seq::<Seq<char>>::empty(),
        scale_args(Resolution::Hd720) == seq!["-vf"@, "scale=-2:720"@],
        scale_args(Resolution::Hd1080) == seq!["-vf"@, "scale=-2:1080"@],
        preset_resolution(Some("720p"@)) == Resolution::Hd720,
        preset_resolution(Some("1080p"@)) == Resolution::Hd1080,
        forall|name: Seq<char>|
            name != "720p"@ && name != "1080p"@ ==> #[trigger] preset_resolution(Some(name))
                == Resolution::Source,
        preset_resolution(None) == Resolution::Source,
{
    reveal_strlit("scale=-2:");
    reveal_strlit("scale=-2:720");
    reveal_strlit("scale=-2:1080");
    reveal_strlit("720p");
    reveal_strlit("1080p");
    assert(decimal(720) =~= seq!['7', '2', '0']) by {
        reveal_with_fuel(decimal, 3);
    }
    assert(decimal(1080) =~= seq!['1', '0', '8', '0']) by {
        reveal_with_fuel(decimal, 4);
    }
    assert(scale_filter(720) =~= "scale=-2:720"@);
    assert(scale_filter(1080) =~= "scale=-2:1080"@);
    assert("720p"@ != "1080p"@) by {
        assert("720p"@.len() == 4);
        assert("1080p"@.len() == 5);
    }
}

impl Resolution {
    /// The resolution that a preset's name stands for.
    pub fn from_preset(preset: Option<&str>) -> (r: Resolution)
        ensures
            r == preset_resolution(
                match preset {
                    Some(name) => Some(name@),
                    None => None,
                },
            ),
    {
        match preset {
            Some(name) => {
                if same_text(name, "720p") {
                    Resolution::Hd720
                } else if same_text(name, "1080p") {
                    Resolution::Hd1080
                } else {
                    Resolution::Source
                }
            },
            None => Resolution::Source,
        }
    }

    /// The number of lines that the resolution scales to, where it scales at all.
    pub fn height(self) -> (h: Option<u64>)
        ensures
            match h {
                Some(lines) => target_height(self) == Some(lines as nat),
                None => target_height(self) is None,
            },
    {
        match self {
            Resolution::Source => None,
            Resolution::Hd720 => Some(720),
            Resolution::Hd1080 => Some(1080),
        }
    }

    /// The scale filter of the resolution, where it scales at all.
    pub fn filter(self) -> (f: Option<String>)
        ensures
            match f {
                Some(text) => target_height(self) is Some && text@ == scale_filter(
                    target_height(self)->Some_0,
                ),
                None => target_height(self) is None,
            },
    {
        match self.height() {
            Some(lines) => {
                let mut text = String::from_str("scale=-2:");
                push_decimal(&mut text, lines);
                Some(text)
            },
            None => None,
        }
    }

    /// Appends the arguments that make the engine scale to the resolution.
    pub fn push_scale_args(self, args: &mut Vec<String>)
        ensures
            final(args).deep_view() == old(args).deep_view() + scale_args(self),
    {
        match self.filter() {
            Some(text) => {
                push_arg(args, "-vf");
                push_owned(args, text);
            },
            None => {},
        }
        assert(args.deep_view() =~= old(args).deep_view() + scale_args(self));
    }
}

} // verus!
