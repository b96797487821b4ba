use crate::text::eq_ignoring_case;
use crate::text::same_ignoring_case;
use vstd::prelude::*;
use vstd::string::*;

verus! {

/// Paper formats for the rendered image.
#[derive(Debug, Clone, Copy, PartialEq, Eq, Structural)]
pub enum PaperSize {
    A5,
    A4,
    A3,
    A2,
    A1,
    A0,
    Letter,
    Legal,
    Tabloid,
    Executive,
    /// A size that is set otherwise.
    Custom,
}

impl PaperSize {
    /// The name of the format.
    pub open spec fn name(self) -> Seq<char> {
        match self {
            PaperSize::A5 => "A5"@,
            PaperSize::A4 => "A4"@,
            PaperSize::A3 => "A3"@,
            PaperSize::A2 => "A2"@,
            PaperSize::A1 => "A1"@,
            PaperSize::A0 => "A0"@,
            PaperSize::Letter => "Letter"@,
            PaperSize::Legal => "Legal"@,
            PaperSize::Tabloid => "Tabloid"@,
            PaperSize::Executive => "Executive"@,
            PaperSize::Custom => "Custom"@,
        }
    }

    /// Width and height of the format in tenths of a millimetre, portrait.
    pub open spec fn size(self) -> (int, int) {
        match self {
            PaperSize::A5 => (1480, 2100),
            PaperSize::A4 => (2100, 2970),
            PaperSize::A3 => (2970, 4200),
            PaperSize::A2 => (4200, 5940),
            PaperSize::A1 => (5940, 8410),
            PaperSize::A0 => (8410, 11890),
            PaperSize::Letter => (2159, 2794),
            PaperSize::Legal => (2159, 3556),
            PaperSize::Tabloid => (2794, 4318),
            PaperSize::Executive => (1910, 2540),
            PaperSize::Custom => (0, 0),
        }
    }

    /// The name of the format.
    pub fn as_str(&self) -> (s: &str)
        ensures
            s@ == self.name(),
    {
        match self {
            PaperSize::A5 => "A5",
            PaperSize::A4 => "A4",
            PaperSize::A3 => "A3",
            PaperSize::A2 => "A2",
            PaperSize::A1 => "A1",
            PaperSize::A0 => "A0",
            PaperSize::Letter => "Letter",
            PaperSize::Legal => "Legal",
            PaperSize::Tabloid => "Tabloid",
            PaperSize::Executive => "Executive",
            PaperSize::Custom => "Custom",
        }
    }

    /// Width and height of the format in pixels at the given resolution.
    pub fn get_size_pixels(&self, dpi: u32) -> (pixels: Option<(u32, u32)>)
        ensures
            pixels matches Some(p) && p.0 == pixels_for(self.size().0, dpi as int) && p.1
                == pixels_for(self.size().1, dpi as int),
    {
        let (width, height) = self.size_in_tenths();
        Some((to_pixels(width, dpi), to_pixels(height, dpi)))
    }

    /// Width and height of the format in tenths of a millimetre.
    pub fn get_size_mm(&self) -> (size: Option<(u32, u32)>)
        ensures
            size matches Some(s) && s.0 == self.size().0 && s.1 == self.size().1,
    {
        Some(self.size_in_tenths())
    }

    /// Width and height of the format in tenths of a millimetre.
    pub fn size_in_tenths(&self) -> (size: (u32, u32))
        ensures
            size.0 == self.size().0,
            size.1 == self.size().1,
    {
        match self {
            PaperSize::A5 => (1480, 2100),
            PaperSize::A4 => (2100, 2970),
            PaperSize::A3 => (2970, 4200),
            PaperSize::A2 => (4200, 5940),
            PaperSize::A1 => (5940, 8410),
            PaperSize::A0 => (8410, 11890),
            PaperSize::Letter => (2159, 2794),
            PaperSize::Legal => (2159, 3556),
            PaperSize::Tabloid => (2794, 4318),
            PaperSize::Executive => (1910, 2540),
            PaperSize::Custom => (0, 0),
        }
    }

    /// The format of the given name, the case of letters aside.
    pub fn from_name(s: &str) -> (format: Option<PaperSize>)
        ensures
            format == format_named(s@),
    {
        if eq_ignoring_case(s, "A5") {
            Some(PaperSize::A5)
        } else if eq_ignoring_case(s, "A4") {
            Some(PaperSize::A4)
        } else if eq_ignoring_case(s, "A3") {
            Some(PaperSize::A3)
        } else if eq_ignoring_case(s, "A2") {
            Some(PaperSize::A2)
        } else if eq_ignoring_case(s, "A1") {
            Some(PaperSize::A1)
        } else if eq_ignoring_case(s, "A0") {
            Some(PaperSize::A0)
        } else if eq_ignoring_case(s, "Letter") {
            Some(PaperSize::Letter)
        } else if eq_ignoring_case(s, "Legal") {
            Some(PaperSize::Legal)
        } else if eq_ignoring_case(s, "Tabloid") {
            Some(PaperSize::Tabloid)
        } else if eq_ignoring_case(s, "Executive") {
            Some(PaperSize::Executive)
        } else if eq_ignoring_case(s, "Custom") {
            Some(PaperSize::Custom)
        } else {
            None
        }
    }
}

/// The format whose name is `s`, the case of letters aside.
pub open spec fn format_named(s: Seq<char>) -> Option<PaperSize> {
    if same_ignoring_case(s, PaperSize::A5.name()) {
        Some(PaperSize::A5)
    } else if same_ignoring_case(s, PaperSize::A4.name()) {
        Some(PaperSize::A4)
    } else if same_ignoring_case(s, PaperSize::A3.name()) {
        Some(PaperSize::A3)
    } else if same_ignoring_case(s, PaperSize::A2.name()) {
        Some(PaperSize::A2)
    } else if same_ignoring_case(s, PaperSize::A1.name()) {
        Some(PaperSize::A1)
    } else if same_ignoring_case(s, PaperSize::A0.name()) {
        Some(PaperSize::A0)
    } else if same_ignoring_case(s, PaperSize::Letter.name()) {
        Some(PaperSize::Letter)
    } else if same_ignoring_case(s, PaperSize::Legal.name()) {
        Some(PaperSize::Legal)
    } else if same_ignoring_case(s, PaperSize::Tabloid.name()) {
        Some(PaperSize::Tabloid)
    } else if same_ignoring_case(s, PaperSize::Executive.name()) {
        Some(PaperSize::Executive)
    } else if same_ignoring_case(s, PaperSize::Custom.name()) {
        Some(PaperSize::Custom)
    } else {
        None
    }
}

/// Tenths of a millimetre in pixels at the given resolution: there are 254
/// tenths of a millimetre to the inch. Rounded down, and no more than the
/// largest number.
pub open spec fn pixels_for(tenths: int, dpi: int) -> int {
    let pixels = tenths * dpi / 254;
    if pixels > u32::MAX {
        u32::MAX as int
    } else {
        pixels
    }
}

/// Tenths of a millimetre in pixels, see `pixels_for`.
pub fn to_pixels(tenths: u32, dpi: u32) -> (pixels: u32)
    ensures
        pixels == pixels_for(tenths as int, dpi as int),
{
    assert(0 <= tenths * dpi <= 0x1_0000_0000 * 0x1_0000_0000) by (nonlinear_arith)
        requires
            0 <= tenths <= 0x1_0000_0000,
            0 <= dpi <= 0x1_0000_0000,
    ;
    let pixels: u128 = (tenths as u128 * dpi as u128) / 254;
    if pixels > u32::MAX as u128 {
        u32::MAX
    } else {
        pixels as u32
    }
}

/// Width and height, in tenths of a millimetre, of the format of the given name.
pub fn paper_size_to_mm(paper_size: &str) -> (size: Option<(u32, u32)>)
    ensures
        match format_named(paper_size@) {
            Some(format) => size matches Some(s) && s.0 == format.size().0 && s.1 == format.size().1,
            None => size is None,
        },
{
    match PaperSize::from_name(paper_size) {
        Some(format) => format.get_size_mm(),
        None => None,
    }
}

/// Width and height, in pixels at the given resolution, of the format of the
/// given name.
pub fn paper_size_to_pixels(paper_size: &str, dpi: u32) -> (pixels: Option<(u32, u32)>)
    ensures
        match format_named(paper_size@) {
            Some(format) => pixels matches Some(p) && p.0 == pixels_for(
                format.size().0,
                dpi as int,
            ) && p.1 == pixels_for(format.size().1, dpi as int),
            None => pixels is None,
        },
{
    match paper_size_to_mm(paper_size) {
        Some((width, height)) => Some((to_pixels(width, dpi), to_pixels(height, dpi))),
        None => None,
    }
}

impl std::str::FromStr for PaperSize {
    type Err = String;

    /// The format of the given name, the case of letters aside, or a message
    /// that tells the name where it is the name of no format.
    fn from_str(s: &str) -> (format: Result<Self, String>)
        ensures
            match format {
                Ok(found) => format_named(s@) == Some(found),
                Err(message) => format_named(s@) is None && message@ == "Invalid paper size: "@
                    + s@,
            },
    {
        match PaperSize::from_name(s) {
            Some(format) => Ok(format),
            None => Err("Invalid paper size: ".to_owned().concat(s)),
        }
    }
}

} // verus!
