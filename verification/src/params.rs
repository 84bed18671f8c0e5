//! What a request asks for, and the rules it has to meet before anything is
//! painted.

use crate::digest::{select_digest, MAX_GRID_SIZE, MIN_GRID_SIZE};
use crate::query::{param_or, parse_query_param_or, QueryParams};
use crate::rejection::Rejection;
use crate::rounding::{
    closest_multiple, closest_multiple_spec, lemma_nearest_multiple, nearest_multiple,
};
use crate::text::{chars_of, same_chars};
use vstd::prelude::*;

verus! {

/// The image containers an identicon can be written in.
#[derive(Clone, Copy, Debug, PartialEq, Eq, Structural)]
pub enum Format {
    Png,
    Bmp,
    Jpeg,
    Ico,
}

/// Grid size of a request that names none.
pub const DEFAULT_GRID_SIZE: u32 = 5;

/// Padding of a request that names none.
pub const DEFAULT_PADDING: u32 = 0;

/// The resolution of a request that names none is the multiple of its grid
/// size nearest to this.
pub const DEFAULT_RESOLUTION: u32 = 200;

/// The largest resolution that is painted.
pub const MAX_RESOLUTION: u32 = 1000;

/// The largest side, padding included, that an ICO file can hold.
pub const MAX_ICO_SIZE: u64 = 256;

/// The container that a file extension asks for: PNG for every extension but
/// `bmp`, `jpeg` and `ico`.
pub open spec fn format_of(extension: Seq<char>) -> Format {
    if extension == "bmp"@ {
        Format::Bmp
    } else if extension == "jpeg"@ {
        Format::Jpeg
    } else if extension == "ico"@ {
        Format::Ico
    } else {
        Format::Png
    }
}

impl Format {
    /// Reads the container from a file extension.
    pub fn from_extension(extension: &str) -> (f: Format)
        ensures
            f == format_of(extension@),
    {
        let ext = chars_of(extension);
        if same_chars(ext.as_slice(), chars_of("bmp").as_slice()) {
            Format::Bmp
        } else if same_chars(ext.as_slice(), chars_of("jpeg").as_slice()) {
            Format::Jpeg
        } else if same_chars(ext.as_slice(), chars_of("ico").as_slice()) {
            Format::Ico
        } else {
            Format::Png
        }
    }
}

/// What to paint: the grid, the padding round it, and the container.
#[derive(Clone, Copy, Debug, PartialEq, Eq, Structural)]
pub struct RenderParameters {
    /// Number of cells to a side.
    pub grid_size: u32,
    /// Transparent pixels added on each side of the pattern.
    pub padding: u32,
    /// Side of the pattern in pixels, padding not counted.
    pub resolution: u32,
    /// Whether the left half of the pattern is mirrored onto the right.
    pub symmetrical: bool,
    /// The container that the image is written in.
    pub format: Format,
}

impl RenderParameters {
    /// Side of one cell in pixels.
    pub open spec fn cell_size(self) -> int {
        self.resolution as int / self.grid_size as int
    }

    /// Side of the whole image in pixels: the pattern and the padding on both
    /// sides of it.
    pub open spec fn canvas_size(self) -> int {
        self.resolution + 2 * self.padding
    }

    /// The first rule that the parameters break, in the order in which the
    /// rules are checked; `None` where they break none. A grid without cells
    /// has no cell size, and no resolution but zero is a multiple of it: it is
    /// turned down before the rules that divide by the grid size.
    pub open spec fn rejection(self) -> Option<Rejection> {
        if self.grid_size == 0 {
            Some(Rejection::GridSizeOutOfRange)
        } else if self.resolution as int % self.grid_size as int != 0 {
            Some(
                Rejection::ResolutionNotDivisible {
                    recommended: closest_multiple_spec(self.resolution, self.grid_size),
                },
            )
        } else if self.resolution > MAX_RESOLUTION {
            Some(Rejection::ResolutionTooLarge)
        } else if self.canvas_size() > MAX_ICO_SIZE && self.format == Format::Ico {
            Some(Rejection::ContainerSizeExceeded)
        } else if self.cell_size() == 0 {
            Some(Rejection::CellSizeZero)
        } else if self.grid_size > MAX_GRID_SIZE {
            Some(Rejection::GridSizeOutOfRange)
        } else {
            None
        }
    }

    /// Parameters that can be painted: the grid has a hash function, its cells
    /// are whole pixels and at least one pixel wide, the resolution is within
    /// bounds, and an ICO file is not asked to hold more than it can.
    pub open spec fn valid(self) -> bool {
        &&& MIN_GRID_SIZE <= self.grid_size <= MAX_GRID_SIZE
        &&& self.resolution as int % self.grid_size as int == 0
        &&& self.cell_size() >= 1
        &&& self.resolution <= MAX_RESOLUTION
        &&& self.format == Format::Ico ==> self.canvas_size() <= MAX_ICO_SIZE
    }

    /// Side of the whole image in pixels.
    pub fn padded_size(&self) -> (size: u64)
        ensures
            size == self.canvas_size(),
    {
        self.resolution as u64 + 2 * (self.padding as u64)
    }

    /// Checks the parameters against the rules, in their order, and reports
    /// the first one that is broken.
    pub fn check(&self) -> (r: Result<(), Rejection>)
        ensures
            match r {
                Ok(_) => self.rejection() is None,
                Err(rejection) => self.rejection() == Some(rejection),
            },
            r is Ok <==> self.valid(),
    {
        proof {
            lemma_valid_iff_not_rejected(*self);
        }
        if self.grid_size == 0 {
            return Err(Rejection::GridSizeOutOfRange);
        }
        if self.resolution % self.grid_size != 0 {
            return Err(
                Rejection::ResolutionNotDivisible {
                    recommended: closest_multiple(self.resolution, self.grid_size),
                },
            );
        }
        if self.resolution > MAX_RESOLUTION {
            return Err(Rejection::ResolutionTooLarge);
        }
        if self.padded_size() > MAX_ICO_SIZE && self.format == Format::Ico {
            return Err(Rejection::ContainerSizeExceeded);
        }
        if self.resolution / self.grid_size == 0 {
            return Err(Rejection::CellSizeZero);
        }
        match select_digest(self.grid_size) {
            Ok(_) => Ok(()),
            Err(rejection) => Err(rejection),
        }
    }
}

/// The parameters that break no rule are the valid ones.
pub proof fn lemma_valid_iff_not_rejected(p: RenderParameters)
    ensures
        p.rejection() is None <==> p.valid(),
{
}

/// A resolution that is no multiple of the grid size is turned down, and the
/// rejection recommends the multiple of the grid size nearest to it, held to
/// the range of `u32`.
pub proof fn lemma_not_divisible_is_rejected(p: RenderParameters)
    requires
        p.grid_size != 0,
        p.resolution as int % p.grid_size as int != 0,
    ensures
        p.rejection() == Some(
            Rejection::ResolutionNotDivisible {
                recommended: closest_multiple_spec(p.resolution, p.grid_size),
            },
        ),
        nearest_multiple(p.resolution as nat, p.grid_size as nat) <= u32::MAX
            ==> closest_multiple_spec(p.resolution, p.grid_size) as int % p.grid_size as int == 0,
{
    lemma_nearest_multiple(p.resolution as nat, p.grid_size as nat);
}

/// A grid size outside 1 to 21 is turned down, whatever the other parameters
/// are: as out of range, unless a rule that is checked earlier is broken too.
/// A grid size of zero is always turned down as out of range.
pub proof fn lemma_grid_size_out_of_range(p: RenderParameters)
    requires
        !(MIN_GRID_SIZE <= p.grid_size <= MAX_GRID_SIZE),
    ensures
        p.rejection() is Some,
        p.grid_size == 0 ==> p.rejection() == Some(Rejection::GridSizeOutOfRange),
        ({
            &&& p.resolution as int % p.grid_size as int == 0
            &&& 0 < p.resolution <= MAX_RESOLUTION
            &&& !(p.format == Format::Ico && p.canvas_size() > MAX_ICO_SIZE)
        }) ==> p.rejection() == Some(Rejection::GridSizeOutOfRange),
{
    if p.grid_size > MAX_GRID_SIZE && p.resolution as int % p.grid_size as int == 0
        && p.resolution > 0 {
        let g = p.grid_size as int;
        let res = p.resolution as int;
        assert(res / g != 0) by (nonlinear_arith)
            requires
                g > 0,
                res > 0,
                res % g == 0,
        ;
    }
}

/// The parameters that a request asks for, each from its key of the query
/// string or else its default, and the container from the file extension.
pub open spec fn requested(
    pairs: Seq<(Seq<char>, Seq<char>)>,
    extension: Seq<char>,
) -> RenderParameters {
    let grid_size = param_or(pairs, "size"@, DEFAULT_GRID_SIZE);
    RenderParameters {
        grid_size,
        padding: param_or(pairs, "pad"@, DEFAULT_PADDING),
        resolution: param_or(
            pairs,
            "res"@,
            closest_multiple_spec(DEFAULT_RESOLUTION, grid_size),
        ),
        symmetrical: param_or(pairs, "sym"@, true),
        format: format_of(extension),
    }
}

impl RenderParameters {
    /// Reads the parameters of a request, unchecked.
    pub fn from_query(query: &QueryParams, extension: &str) -> (p: RenderParameters)
        ensures
            p == requested(query@, extension@),
    {
        let grid_size = parse_query_param_or(query, "size", DEFAULT_GRID_SIZE);
        let padding = parse_query_param_or(query, "pad", DEFAULT_PADDING);
        let resolution = parse_query_param_or(
            query,
            "res",
            closest_multiple(DEFAULT_RESOLUTION, grid_size),
        );
        let symmetrical = parse_query_param_or(query, "sym", true);
        RenderParameters {
            grid_size,
            padding,
            resolution,
            symmetrical,
            format: Format::from_extension(extension),
        }
    }
}

} // verus!
