use vstd::prelude::*;

verus! {

/// The kind of a message shown at the top of a page.
#[derive(Debug, Clone, Copy, PartialEq, Eq, Structural)]
pub enum BannerKind {
    Info,
    Error,
}

impl BannerKind {
    /// The name of the style class of the banner.
    pub fn as_str(self) -> (r: &'static str)
        ensures
            r@ == (match self {
                BannerKind::Info => "info"@,
                BannerKind::Error => "error"@,
            }),
    {
        proof {
            reveal_strlit("info");
            reveal_strlit("error");
        }
        match self {
            BannerKind::Info => "info",
            BannerKind::Error => "error",
        }
    }

    /// The title of the banner.
    pub fn name(self) -> (r: &'static str)
        ensures
            r@ == (match self {
                BannerKind::Info => "Info"@,
                BannerKind::Error => "Error"@,
            }),
    {
        proof {
            reveal_strlit("Info");
            reveal_strlit("Error");
        }
        match self {
            BannerKind::Info => "Info",
            BannerKind::Error => "Error",
        }
    }
}

} // verus!
