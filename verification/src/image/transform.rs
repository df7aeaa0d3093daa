use crate::utils::error::{WallpaperError, WallpaperResult};
use crate::utils::text::{copy_text, same_text};
use vstd::prelude::*;

verus! {

/// How an image is brought to the size of an output.
#[derive(Debug, Clone, Copy, PartialEq, Eq, Structural)]
pub enum ScalingMode {
    /// Cover the output, keeping the aspect ratio.
    Fill,
    /// Fit inside the output, keeping the aspect ratio.
    Fit,
    /// Take exactly the size of the output.
    Stretch,
}

impl ScalingMode {
    /// The mode that `name` stands for, if it is the name of one.
    pub open spec fn named(name: Seq<char>) -> Option<ScalingMode> {
        if name == "fill"@ {
            Some(ScalingMode::Fill)
        } else if name == "fit"@ {
            Some(ScalingMode::Fit)
        } else if name == "stretch"@ {
            Some(ScalingMode::Stretch)
        } else {
            None
        }
    }

    /// Reads a scaling mode from its name: `fill`, `fit` or `stretch`.
    /// Any other text is refused with `InvalidScaling`, which carries it.
    pub fn from_name(name: &str) -> (r: WallpaperResult<ScalingMode>)
        ensures
            match r {
                Ok(mode) => ScalingMode::named(name@) == Some(mode),
                Err(e) => {
                    &&& ScalingMode::named(name@) is None
                    &&& e matches WallpaperError::InvalidScaling(text)
                    &&& text@ == name@
                },
            },
    {
        if same_text(name, "fill") {
            Ok(ScalingMode::Fill)
        } else if same_text(name, "fit") {
            Ok(ScalingMode::Fit)
        } else if same_text(name, "stretch") {
            Ok(ScalingMode::Stretch)
        } else {
            Err(WallpaperError::InvalidScaling(copy_text(name)))
        }
    }

    /// The name of the mode, which `from_name` reads back.
    pub fn name(&self) -> (name: &'static str)
        ensures
            ScalingMode::named(name@) == Some(*self),
    {
        proof {
            reveal_strlit("fill");
            reveal_strlit("fit");
            reveal_strlit("stretch");
        }
        match self {
            ScalingMode::Fill => "fill",
            ScalingMode::Fit => {
                assert("fit"@.len() != "fill"@.len());
                "fit"
            },
            ScalingMode::Stretch => {
                assert("stretch"@.len() != "fill"@.len());
                assert("stretch"@.len() != "fit"@.len());
                "stretch"
            },
        }
    }
}

} // verus!
