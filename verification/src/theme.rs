//! The five named palettes (Nature, DarkBlue, CalmGreen, PastelPink,
//! PunkPrincess) as plain colours; painting them onto a UI happens outside.
use vstd::prelude::*;

verus! {

#[derive(Clone, Copy, PartialEq, Eq, Debug)]
pub enum Theme {
    Nature,
    DarkBlue,
    CalmGreen,
    PastelPink,
    PunkPrincess,
}

/// A colour, premultiplied RGBA.
#[derive(Clone, Copy, PartialEq, Eq, Debug)]
pub struct Rgba {
    pub r: u8,
    pub g: u8,
    pub b: u8,
    pub a: u8,
}

/// An opaque colour.
pub open spec fn rgb(r: u8, g: u8, b: u8) -> Rgba {
    Rgba { r, g, b, a: 255 }
}

fn from_rgb(r: u8, g: u8, b: u8) -> (c: Rgba)
    ensures
        c == rgb(r, g, b),
{
    Rgba { r, g, b, a: 255 }
}

#[derive(Clone, Copy, Debug)]
pub struct Palette {
    pub dark: bool,
    /// Panel and window background.
    pub base: Rgba,
    /// Fields, charts and bars: below the background.
    pub sunken: Rgba,
    /// Lines, selection, links.
    pub accent: Rgba,
    /// Main text over `base` and `sunken`.
    pub text: Rgba,
}

/// The name of each theme.
pub open spec fn theme_label_spec(t: Theme) -> Seq<char> {
    match t {
        Theme::Nature => "Nature"@,
        Theme::DarkBlue => "DarkBlue"@,
        Theme::CalmGreen => "CalmGreen"@,
        Theme::PastelPink => "PastelPink"@,
        Theme::PunkPrincess => "PunkPrincess"@,
    }
}

/// The colours of each theme.
pub open spec fn palette_spec(t: Theme) -> Palette {
    match t {
        Theme::Nature => Palette {
            dark: true,
            base: rgb(0x16, 0x1b, 0x17),
            sunken: rgb(0x0e, 0x12, 0x0f),
            accent: rgb(0x7c, 0xbf, 0x7f),
            text: rgb(0xdf, 0xe7, 0xdf),
        },
        Theme::DarkBlue => Palette {
            dark: true,
            base: rgb(0x12, 0x18, 0x26),
            sunken: rgb(0x0c, 0x11, 0x1c),
            accent: rgb(0x5f, 0x9e, 0xe6),
            text: rgb(0xdf, 0xe4, 0xee),
        },
        Theme::CalmGreen => Palette {
            dark: false,
            base: rgb(0xea, 0xf2, 0xea),
            sunken: rgb(0xdc, 0xe8, 0xdc),
            accent: rgb(0x3f, 0x8f, 0x5f),
            text: rgb(0x22, 0x30, 0x2a),
        },
        Theme::PastelPink => Palette {
            dark: false,
            base: rgb(0xf7, 0xed, 0xf2),
            sunken: rgb(0xed, 0xdd, 0xe6),
            accent: rgb(0xc9, 0x74, 0x9f),
            text: rgb(0x33, 0x22, 0x2b),
        },
        Theme::PunkPrincess => Palette {
            dark: true,
            base: rgb(0x19, 0x10, 0x19),
            sunken: rgb(0x12, 0x0a, 0x12),
            accent: rgb(0xf0, 0x60, 0x9f),
            text: rgb(0xed, 0xdf, 0xe8),
        },
    }
}

impl Theme {
    /// Every theme, in selector order.
    pub fn all() -> (r: [Theme; 5])
        ensures
            r@ == seq![Theme::Nature, Theme::DarkBlue, Theme::CalmGreen, Theme::PastelPink, Theme::PunkPrincess],
    {
        let r = [Theme::Nature, Theme::DarkBlue, Theme::CalmGreen, Theme::PastelPink, Theme::PunkPrincess];
        assert(r@ =~= seq![Theme::Nature, Theme::DarkBlue, Theme::CalmGreen, Theme::PastelPink, Theme::PunkPrincess]);
        r
    }

    pub fn label(self) -> (r: &'static str)
        ensures
            r@ == theme_label_spec(self),
    {
        match self {
            Theme::Nature => "Nature",
            Theme::DarkBlue => "DarkBlue",
            Theme::CalmGreen => "CalmGreen",
            Theme::PastelPink => "PastelPink",
            Theme::PunkPrincess => "PunkPrincess",
        }
    }

    pub fn palette(self) -> (p: Palette)
        ensures
            p == palette_spec(self),
    {
        match self {
            Theme::Nature => Palette {
                dark: true,
                base: from_rgb(0x16, 0x1b, 0x17),
                sunken: from_rgb(0x0e, 0x12, 0x0f),
                accent: from_rgb(0x7c, 0xbf, 0x7f),
                text: from_rgb(0xdf, 0xe7, 0xdf),
            },
            Theme::DarkBlue => Palette {
                dark: true,
                base: from_rgb(0x12, 0x18, 0x26),
                sunken: from_rgb(0x0c, 0x11, 0x1c),
                accent: from_rgb(0x5f, 0x9e, 0xe6),
                text: from_rgb(0xdf, 0xe4, 0xee),
            },
            Theme::CalmGreen => Palette {
                dark: false,
                base: from_rgb(0xea, 0xf2, 0xea),
                sunken: from_rgb(0xdc, 0xe8, 0xdc),
                accent: from_rgb(0x3f, 0x8f, 0x5f),
                text: from_rgb(0x22, 0x30, 0x2a),
            },
            Theme::PastelPink => Palette {
                dark: false,
                base: from_rgb(0xf7, 0xed, 0xf2),
                sunken: from_rgb(0xed, 0xdd, 0xe6),
                accent: from_rgb(0xc9, 0x74, 0x9f),
                text: from_rgb(0x33, 0x22, 0x2b),
            },
            Theme::PunkPrincess => Palette {
                dark: true,
                base: from_rgb(0x19, 0x10, 0x19),
                sunken: from_rgb(0x12, 0x0a, 0x12),
                accent: from_rgb(0xf0, 0x60, 0x9f),
                text: from_rgb(0xed, 0xdf, 0xe8),
            },
        }
    }
}

impl Palette {
    /// Subtle grid line over `sunken`: black at alpha 50 on dark palettes, 18
    /// on light ones.
    pub fn grid(self) -> (c: Rgba)
        ensures
            c == (Rgba { r: 0, g: 0, b: 0, a: if self.dark { 50u8 } else { 18u8 } }),
    {
        if self.dark {
            Rgba { r: 0, g: 0, b: 0, a: 50 }
        } else {
            Rgba { r: 0, g: 0, b: 0, a: 18 }
        }
    }
}

} // verus!
