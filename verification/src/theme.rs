//! The colors of the light and dark themes.

use vstd::prelude::*;
use crate::highlight::LineStyle;
use crate::preview::NoticeKind;

verus! {

/// An opaque color.
#[derive(Clone, Copy, Debug, PartialEq, Eq, Structural)]
pub struct Rgb {
    pub r: u8,
    pub g: u8,
    pub b: u8,
}

/// The named colors of a theme.
#[derive(Clone, Copy, Debug, PartialEq, Eq, Structural)]
pub struct Palette {
    pub brand_primary: Rgb,
    pub brand_success: Rgb,
    pub brand_warning: Rgb,
    pub brand_danger: Rgb,
    pub panel_bg: Rgb,
    pub panel_sidebar_bg: Rgb,
    pub subtle_bg: Rgb,
    pub border_subtle: Rgb,
    pub divider: Rgb,
    pub text_primary: Rgb,
    pub text_body: Rgb,
    pub text_muted: Rgb,
    pub text_faint: Rgb,
    pub text_default: Rgb,
    pub text_on_brand: Rgb,
    pub status_published: Rgb,
    pub status_draft: Rgb,
}

/// A color from its three components.
pub open spec fn rgb(r: u8, g: u8, b: u8) -> Rgb {
    Rgb { r, g, b }
}

/// The warm dark palette, and the warm light one; both keep the brand blue of the
/// logo.
pub open spec fn palette_spec(dark: bool) -> Palette {
    if dark {
        Palette {
            brand_primary: rgb(0, 122, 204),
            brand_success: rgb(74, 154, 106),
            brand_warning: rgb(154, 122, 58),
            brand_danger: rgb(180, 65, 55),
            panel_bg: rgb(28, 27, 26),
            panel_sidebar_bg: rgb(23, 23, 26),
            subtle_bg: rgb(46, 44, 42),
            border_subtle: rgb(58, 56, 53),
            divider: rgb(37, 35, 32),
            text_primary: rgb(232, 228, 223),
            text_body: rgb(197, 192, 186),
            text_muted: rgb(122, 117, 112),
            text_faint: rgb(90, 85, 80),
            text_default: rgb(232, 228, 223),
            text_on_brand: rgb(255, 255, 255),
            status_published: rgb(74, 154, 106),
            status_draft: rgb(154, 122, 58),
        }
    } else {
        Palette {
            brand_primary: rgb(0, 122, 204),
            brand_success: rgb(58, 138, 90),
            brand_warning: rgb(138, 122, 58),
            brand_danger: rgb(180, 55, 45),
            panel_bg: rgb(245, 243, 240),
            panel_sidebar_bg: rgb(236, 234, 231),
            subtle_bg: rgb(236, 234, 231),
            border_subtle: rgb(221, 217, 213),
            divider: rgb(221, 217, 213),
            text_primary: rgb(28, 27, 26),
            text_body: rgb(74, 69, 64),
            text_muted: rgb(181, 176, 171),
            text_faint: rgb(181, 176, 171),
            text_default: rgb(28, 27, 26),
            text_on_brand: rgb(255, 255, 255),
            status_published: rgb(58, 138, 90),
            status_draft: rgb(138, 122, 58),
        }
    }
}

/// The palette of the dark or light theme (see `palette_spec`).
pub fn palette(dark: bool) -> (r: Palette)
    ensures
        r == palette_spec(dark),
{
    if dark {
        Palette {
            brand_primary: Rgb { r: 0, g: 122, b: 204 },
            brand_success: Rgb { r: 74, g: 154, b: 106 },
            brand_warning: Rgb { r: 154, g: 122, b: 58 },
            brand_danger: Rgb { r: 180, g: 65, b: 55 },
            panel_bg: Rgb { r: 28, g: 27, b: 26 },
            panel_sidebar_bg: Rgb { r: 23, g: 23, b: 26 },
            subtle_bg: Rgb { r: 46, g: 44, b: 42 },
            border_subtle: Rgb { r: 58, g: 56, b: 53 },
            divider: Rgb { r: 37, g: 35, b: 32 },
            text_primary: Rgb { r: 232, g: 228, b: 223 },
            text_body: Rgb { r: 197, g: 192, b: 186 },
            text_muted: Rgb { r: 122, g: 117, b: 112 },
            text_faint: Rgb { r: 90, g: 85, b: 80 },
            text_default: Rgb { r: 232, g: 228, b: 223 },
            text_on_brand: Rgb { r: 255, g: 255, b: 255 },
            status_published: Rgb { r: 74, g: 154, b: 106 },
            status_draft: Rgb { r: 154, g: 122, b: 58 },
        }
    } else {
        Palette {
            brand_primary: Rgb { r: 0, g: 122, b: 204 },
            brand_success: Rgb { r: 58, g: 138, b: 90 },
            brand_warning: Rgb { r: 138, g: 122, b: 58 },
            brand_danger: Rgb { r: 180, g: 55, b: 45 },
            panel_bg: Rgb { r: 245, g: 243, b: 240 },
            panel_sidebar_bg: Rgb { r: 236, g: 234, b: 231 },
            subtle_bg: Rgb { r: 236, g: 234, b: 231 },
            border_subtle: Rgb { r: 221, g: 217, b: 213 },
            divider: Rgb { r: 221, g: 217, b: 213 },
            text_primary: Rgb { r: 28, g: 27, b: 26 },
            text_body: Rgb { r: 74, g: 69, b: 64 },
            text_muted: Rgb { r: 181, g: 176, b: 171 },
            text_faint: Rgb { r: 181, g: 176, b: 171 },
            text_default: Rgb { r: 28, g: 27, b: 26 },
            text_on_brand: Rgb { r: 255, g: 255, b: 255 },
            status_published: Rgb { r: 58, g: 138, b: 90 },
            status_draft: Rgb { r: 138, g: 122, b: 58 },
        }
    }
}

/// The purple of tips.
pub open spec fn tip_purple() -> Rgb {
    rgb(155, 89, 182)
}

/// The color of a notice kind: notes and information in the brand color, tips in
/// purple, warnings, dangers and successes in their brand colors.
pub open spec fn notice_color_spec(p: Palette, kind: NoticeKind) -> Rgb {
    match kind {
        NoticeKind::Note => p.brand_primary,
        NoticeKind::Tip => tip_purple(),
        NoticeKind::Info => p.brand_primary,
        NoticeKind::Warning => p.brand_warning,
        NoticeKind::Danger => p.brand_danger,
        NoticeKind::Success => p.brand_success,
    }
}

/// The color of a notice kind (see `notice_color_spec`).
pub fn notice_color(p: &Palette, kind: NoticeKind) -> (r: Rgb)
    ensures
        r == notice_color_spec(*p, kind),
{
    match kind {
        NoticeKind::Note => p.brand_primary,
        NoticeKind::Tip => Rgb { r: 155, g: 89, b: 182 },
        NoticeKind::Info => p.brand_primary,
        NoticeKind::Warning => p.brand_warning,
        NoticeKind::Danger => p.brand_danger,
        NoticeKind::Success => p.brand_success,
    }
}

/// The color of an editor line of the given style.
pub open spec fn line_color_spec(p: Palette, dark: bool, style: LineStyle) -> Rgb {
    match style {
        LineStyle::Heading => p.text_primary,
        LineStyle::Faint => p.text_faint,
        LineStyle::NoticeDanger => p.brand_danger,
        LineStyle::NoticeWarning => p.brand_warning,
        LineStyle::NoticeSuccess => p.brand_success,
        LineStyle::NoticeTip => tip_purple(),
        LineStyle::NoticeOther => p.brand_primary,
        LineStyle::Markup => if dark {
            rgb(154, 149, 144)
        } else {
            rgb(74, 69, 64)
        },
        LineStyle::Body => p.text_body,
    }
}

/// The color of an editor line (see `line_color_spec`).
pub fn line_color(p: &Palette, dark: bool, style: LineStyle) -> (r: Rgb)
    ensures
        r == line_color_spec(*p, dark, style),
{
    match style {
        LineStyle::Heading => p.text_primary,
        LineStyle::Faint => p.text_faint,
        LineStyle::NoticeDanger => p.brand_danger,
        LineStyle::NoticeWarning => p.brand_warning,
        LineStyle::NoticeSuccess => p.brand_success,
        LineStyle::NoticeTip => Rgb { r: 155, g: 89, b: 182 },
        LineStyle::NoticeOther => p.brand_primary,
        LineStyle::Markup => if dark {
            Rgb { r: 154, g: 149, b: 144 }
        } else {
            Rgb { r: 74, g: 69, b: 64 }
        },
        LineStyle::Body => p.text_body,
    }
}

/// The selection and window backgrounds of a theme.
pub fn surface_colors(dark: bool) -> (r: (Rgb, Rgb))
    ensures
        r == if dark {
            (rgb(58, 56, 53), rgb(28, 27, 26))
        } else {
            (rgb(221, 217, 213), rgb(255, 255, 255))
        },
{
    if dark {
        (Rgb { r: 58, g: 56, b: 53 }, Rgb { r: 28, g: 27, b: 26 })
    } else {
        (Rgb { r: 221, g: 217, b: 213 }, Rgb { r: 255, g: 255, b: 255 })
    }
}

} // verus!
