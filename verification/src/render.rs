//! Painting the pattern: every swept cell whose bit is set is filled with the
//! fill colour, and in a symmetrical pattern its mirror image with it.

use crate::canvas::{
    allocatable, fill_square, image_height, image_pixels, image_width, in_square, new_rgba8,
    paintable, transparent, Color,
};
use crate::digest::{fill_color, fill_color_spec, pattern_bits, BitStream, COLOR_BYTES};
use crate::grid::{lemma_bit_index, lemma_cells_tile, lemma_steps, lemma_sweep_bounds};
use crate::params::RenderParameters;
use vstd::prelude::*;

verus! {

/// Whether cell `(r, c)` paints the pixel `(x, y)`: its bit is set, and the
/// pixel belongs to it.
pub open spec fn cell_paints(
    p: RenderParameters,
    bits: Seq<bool>,
    r: int,
    c: int,
    x: int,
    y: int,
) -> bool {
    bits[p.bit_index(r, c)] && p.cell_covers(r, c, x, y)
}

/// Whether the pixel `(x, y)` is painted: some swept cell paints it.
pub open spec fn painted(p: RenderParameters, bits: Seq<bool>, x: int, y: int) -> bool {
    exists|r: int, c: int| p.sweeps(r, c) && #[trigger] cell_paints(p, bits, r, c, x, y)
}

/// The finished canvas: a square of the padded size, each painted pixel in
/// the fill colour and every other one transparent.
pub open spec fn pattern(p: RenderParameters, bits: Seq<bool>, color: Color) -> Map<
    (int, int),
    Color,
> {
    Map::new(
        |q: (int, int)| 0 <= q.0 < p.canvas_size() && 0 <= q.1 < p.canvas_size(),
        |q: (int, int)|
            if painted(p, bits, q.0, q.1) {
                color
            } else {
                transparent()
            },
    )
}

/// A symmetrical pattern is its own mirror image: a pixel is painted exactly
/// when the pixel at the same distance from the other side of the canvas is.
pub proof fn lemma_mirror_symmetry(p: RenderParameters, bits: Seq<bool>, x: int, y: int)
    requires
        p.symmetrical,
    ensures
        painted(p, bits, x, y) == painted(p, bits, p.canvas_size() - 1 - x, y),
{
    let mirror = p.canvas_size() - 1 - x;
    if painted(p, bits, x, y) {
        let (r, c) = choose|r: int, c: int|
            p.sweeps(r, c) && #[trigger] cell_paints(p, bits, r, c, x, y);
        assert(cell_paints(p, bits, r, c, mirror, y));
    }
    if painted(p, bits, mirror, y) {
        let (r, c) = choose|r: int, c: int|
            p.sweeps(r, c) && #[trigger] cell_paints(p, bits, r, c, mirror, y);
        assert(cell_paints(p, bits, r, c, x, y));
    }
}

/// Every pixel of a swept cell whose bit is set has the fill colour, and in a
/// symmetrical pattern so has every pixel of the cell's mirror image, the
/// square whose left edge is the canvas size less the cell's left edge and
/// the cell size. Both squares lie on the canvas.
pub proof fn lemma_set_cell_is_filled(
    p: RenderParameters,
    bits: Seq<bool>,
    color: Color,
    r: int,
    c: int,
    dx: int,
    dy: int,
)
    requires
        p.valid(),
        p.sweeps(r, c),
        bits[p.bit_index(r, c)],
        0 <= dx < p.cell_size(),
        0 <= dy < p.cell_size(),
    ensures
        pattern(p, bits, color).dom().contains((p.cell_left(c) + dx, p.cell_top(r) + dy)),
        pattern(p, bits, color)[(p.cell_left(c) + dx, p.cell_top(r) + dy)] == color,
        p.symmetrical ==> pattern(p, bits, color).dom().contains(
            (p.mirrored_left(c) + dx, p.cell_top(r) + dy),
        ) && pattern(p, bits, color)[(p.mirrored_left(c) + dx, p.cell_top(r) + dy)] == color,
{
    lemma_sweep_bounds(p);
    assert(p.padding <= p.cell_left(c));
    assert(p.padding <= p.cell_top(r));
    assert(cell_paints(p, bits, r, c, p.cell_left(c) + dx, p.cell_top(r) + dy));
    if p.symmetrical {
        assert(cell_paints(p, bits, r, c, p.mirrored_left(c) + dx, p.cell_top(r) + dy));
    }
}

/// Nothing is painted on the padding: every painted pixel lies in the square
/// of the resolution's side that the padding surrounds.
pub proof fn lemma_padding_stays_transparent(p: RenderParameters, bits: Seq<bool>, x: int, y: int)
    requires
        p.valid(),
        painted(p, bits, x, y),
    ensures
        p.padding <= x < p.padding + p.resolution,
        p.padding <= y < p.padding + p.resolution,
{
    lemma_sweep_bounds(p);
    let (r, c) = choose|r: int, c: int|
        p.sweeps(r, c) && #[trigger] cell_paints(p, bits, r, c, x, y);
    assert(p.padding <= p.cell_left(c));
    assert(p.padding <= p.cell_top(r));
}

/// Where the pattern is not symmetrical nothing is mirrored: a pixel is
/// painted exactly when it lies in the square of a swept cell whose bit is
/// set.
pub proof fn lemma_asymmetrical_paints_cells_only(
    p: RenderParameters,
    bits: Seq<bool>,
    x: int,
    y: int,
)
    requires
        !p.symmetrical,
    ensures
        painted(p, bits, x, y) <==> exists|r: int, c: int|
            p.sweeps(r, c) && bits[#[trigger] p.bit_index(r, c)] && in_square(
                x,
                y,
                p.cell_left(c),
                p.cell_top(r),
                p.cell_size(),
            ),
{
    if painted(p, bits, x, y) {
        let (r, c) = choose|r: int, c: int|
            p.sweeps(r, c) && #[trigger] cell_paints(p, bits, r, c, x, y);
        assert(p.sweeps(r, c) && bits[p.bit_index(r, c)] && in_square(
            x,
            y,
            p.cell_left(c),
            p.cell_top(r),
            p.cell_size(),
        ));
    }
    if exists|r: int, c: int|
        p.sweeps(r, c) && bits[#[trigger] p.bit_index(r, c)] && in_square(
            x,
            y,
            p.cell_left(c),
            p.cell_top(r),
            p.cell_size(),
        ) {
        let (r, c) = choose|r: int, c: int|
            p.sweeps(r, c) && bits[#[trigger] p.bit_index(r, c)] && in_square(
                x,
                y,
                p.cell_left(c),
                p.cell_top(r),
                p.cell_size(),
            );
        assert(cell_paints(p, bits, r, c, x, y));
    }
}

/// Whether a cell that is swept before `(r0, c0)` paints the pixel `(x, y)`.
spec fn painted_before(
    p: RenderParameters,
    bits: Seq<bool>,
    r0: int,
    c0: int,
    x: int,
    y: int,
) -> bool {
    exists|r: int, c: int|
        p.sweeps(r, c) && (r < r0 || (r == r0 && c < c0)) && #[trigger] cell_paints(
            p,
            bits,
            r,
            c,
            x,
            y,
        )
}

/// Whether a canvas shows what the cells that are swept before `(r0, c0)`
/// paint, and nothing else.
spec fn shows_cells_before(
    pixels: Map<(int, int), Color>,
    p: RenderParameters,
    bits: Seq<bool>,
    color: Color,
    r0: int,
    c0: int,
) -> bool {
    forall|x: int, y: int|
        0 <= x < p.canvas_size() && 0 <= y < p.canvas_size() ==> #[trigger] pixels[(x, y)] == (
        if painted_before(p, bits, r0, c0, x, y) {
            color
        } else {
            transparent()
        })
}

/// A transparent canvas shows what no cell paints.
proof fn lemma_sweep_starts(
    pixels: Map<(int, int), Color>,
    p: RenderParameters,
    bits: Seq<bool>,
    color: Color,
)
    requires
        forall|x: int, y: int|
            0 <= x < p.canvas_size() && 0 <= y < p.canvas_size() ==> #[trigger] pixels[(x, y)]
                == transparent(),
    ensures
        shows_cells_before(pixels, p, bits, color, 0, 0),
{
}

/// Sweeping one more cell adds what that cell paints: its square, and in a
/// symmetrical pattern the mirror image of its square, if its bit is set.
proof fn lemma_sweep_step(
    before: Map<(int, int), Color>,
    after: Map<(int, int), Color>,
    p: RenderParameters,
    bits: Seq<bool>,
    color: Color,
    r: int,
    c: int,
)
    requires
        p.sweeps(r, c),
        shows_cells_before(before, p, bits, color, r, c),
        forall|x: int, y: int|
            0 <= x < p.canvas_size() && 0 <= y < p.canvas_size() ==> #[trigger] after[(x, y)] == (
            if cell_paints(p, bits, r, c, x, y) {
                color
            } else {
                before[(x, y)]
            }),
    ensures
        shows_cells_before(after, p, bits, color, r, c + 1),
{
    assert forall|x: int, y: int|
        0 <= x < p.canvas_size() && 0 <= y < p.canvas_size() implies #[trigger] after[(x, y)] == (
    if painted_before(p, bits, r, c + 1, x, y) {
        color
    } else {
        transparent()
    }) by {
        assert(before[(x, y)] == (if painted_before(p, bits, r, c, x, y) {
            color
        } else {
            transparent()
        }));
    }
}

/// The end of a row is the start of the next one.
proof fn lemma_sweep_row(
    pixels: Map<(int, int), Color>,
    p: RenderParameters,
    bits: Seq<bool>,
    color: Color,
    r: int,
)
    requires
        shows_cells_before(pixels, p, bits, color, r, p.columns()),
    ensures
        shows_cells_before(pixels, p, bits, color, r + 1, 0),
{
    assert forall|x: int, y: int|
        0 <= x < p.canvas_size() && 0 <= y < p.canvas_size() implies #[trigger] pixels[(x, y)] == (
    if painted_before(p, bits, r + 1, 0, x, y) {
        color
    } else {
        transparent()
    }) by {
        assert(painted_before(p, bits, r, p.columns(), x, y) <==> painted_before(
            p,
            bits,
            r + 1,
            0,
            x,
            y,
        ));
    }
}

/// A canvas that shows what every swept cell paints is the pattern.
proof fn lemma_sweep_ends(
    pixels: Map<(int, int), Color>,
    p: RenderParameters,
    bits: Seq<bool>,
    color: Color,
)
    requires
        shows_cells_before(pixels, p, bits, color, p.rows(), 0),
        forall|x: int, y: int|
            pixels.dom().contains((x, y)) <==> (0 <= x < p.canvas_size() && 0 <= y
                < p.canvas_size()),
    ensures
        pixels == pattern(p, bits, color),
{
    let wanted = pattern(p, bits, color);
    assert forall|q: (int, int)| pixels.dom().contains(q) <==> wanted.dom().contains(q) by {
        assert(q == (q.0, q.1));
    }
    assert forall|q: (int, int)| wanted.dom().contains(q) implies pixels[q] == wanted[q] by {
        assert(q == (q.0, q.1));
        assert(painted_before(p, bits, p.rows(), 0, q.0, q.1) <==> painted(p, bits, q.0, q.1));
    }
    assert(pixels =~= wanted);
}

/// A canvas that can be allocated has sides that a `u32` holds.
proof fn lemma_allocatable_side(size: nat)
    requires
        allocatable(size, size),
    ensures
        size <= 0x7fff_ffff,
{
    assert(isize::MAX <= 0x7fff_ffff_ffff_ffff);
    assert(size <= 0x7fff_ffff) by (nonlinear_arith)
        requires
            4 * size * size <= 0x7fff_ffff_ffff_ffff,
    ;
}

/// Paints the pattern that `digest` gives under `params` on a fresh,
/// transparent canvas. The digest's first three bytes give the fill colour,
/// its other bytes one bit for each swept cell, row by row.
pub fn render(params: &RenderParameters, digest: Vec<u8>) -> (img: image::DynamicImage)
    requires
        params.valid(),
        allocatable(params.canvas_size() as nat, params.canvas_size() as nat),
        digest@.len() >= COLOR_BYTES,
        params.rows() * params.columns() <= pattern_bits(digest@).len(),
    ensures
        paintable(img),
        image_width(img) == params.canvas_size(),
        image_height(img) == params.canvas_size(),
        image_pixels(img) == pattern(*params, pattern_bits(digest@), fill_color_spec(digest@)),
{
    let p = *params;
    let ghost bits = pattern_bits(digest@);
    let ghost rows = p.rows();
    let ghost columns = p.columns();
    proof {
        lemma_cells_tile(p);
        lemma_sweep_bounds(p);
        lemma_allocatable_side(p.canvas_size() as nat);
    }
    let color = fill_color(digest.as_slice());
    let size: u32 = p.padded_size() as u32;
    let cell: u32 = p.resolution / p.grid_size;
    let stop: u32 = if p.symmetrical {
        p.resolution - (cell * p.grid_size + 1) / 2
    } else {
        p.resolution
    };
    let mut img = new_rgba8(size, size);
    let mut stream = BitStream::new(digest);
    let mut cy: u32 = p.padding;
    let ghost mut r: int = 0;
    proof {
        assert(bits.skip(0) =~= bits);
        lemma_sweep_starts(image_pixels(img), p, bits, color);
    }
    while cy < p.resolution
        invariant
            p.valid(),
            rows == p.rows(),
            columns == p.columns(),
            rows * columns <= bits.len(),
            cell == p.cell_size(),
            cell >= 1,
            stop == p.sweep_limit(),
            stop <= p.resolution,
            size == p.canvas_size(),
            0 <= r <= rows,
            cy == p.cell_top(r),
            stream.wf(),
            stream.remaining() == bits.skip(r * columns),
            paintable(img),
            image_width(img) == size,
            image_height(img) == size,
            shows_cells_before(image_pixels(img), p, bits, color, r, 0),
        decreases rows - r,
    {
        proof {
            lemma_steps(p.padding as int, p.resolution as int, cell as int, r);
        }
        let mut cx: u32 = p.padding;
        let ghost mut c: int = 0;
        while cx < stop
            invariant
                p.valid(),
                rows == p.rows(),
                columns == p.columns(),
                rows * columns <= bits.len(),
                cell == p.cell_size(),
                cell >= 1,
                stop == p.sweep_limit(),
                stop <= p.resolution,
                size == p.canvas_size(),
                0 <= r < rows,
                0 <= c <= columns,
                cy == p.cell_top(r),
                cx == p.cell_left(c),
                stream.wf(),
                stream.remaining() == bits.skip(r * columns + c),
                paintable(img),
                image_width(img) == size,
                image_height(img) == size,
                shows_cells_before(image_pixels(img), p, bits, color, r, c),
            decreases columns - c,
        {
            let ghost before = image_pixels(img);
            let ghost index = p.bit_index(r, c);
            proof {
                lemma_steps(p.padding as int, stop as int, cell as int, c);
                lemma_sweep_bounds(p);
                lemma_bit_index(p, r, c);
                assert(p.padding <= p.cell_left(c));
                assert(p.padding <= p.cell_top(r));
                assert(bits.skip(index)[0] == bits[index]);
                assert(bits.skip(index).skip(1) =~= bits.skip(index + 1));
            }
            let bit = stream.next().unwrap();
            if bit {
                fill_square(&mut img, cx, cy, cell, color);
                if p.symmetrical {
                    fill_square(&mut img, size - cx - cell, cy, cell, color);
                }
            }
            proof {
                assert forall|x: int, y: int| 0 <= x < size && 0 <= y < size implies (
                #[trigger] image_pixels(img)[(x, y)]) == (if cell_paints(p, bits, r, c, x, y) {
                    color
                } else {
                    before[(x, y)]
                }) by {
                    assert(before.dom().contains((x, y)));
                }
                lemma_sweep_step(before, image_pixels(img), p, bits, color, r, c);
                assert((c + 1) * cell == c * cell + cell) by (nonlinear_arith);
            }
            cx = cx + cell;
            proof {
                c = c + 1;
            }
        }
        proof {
            lemma_steps(p.padding as int, stop as int, cell as int, c);
            lemma_sweep_row(image_pixels(img), p, bits, color, r);
            assert((r + 1) * cell == r * cell + cell) by (nonlinear_arith);
            assert((r + 1) * columns == r * columns + columns) by (nonlinear_arith);
        }
        cy = cy + cell;
        proof {
            r = r + 1;
        }
    }
    proof {
        lemma_steps(p.padding as int, p.resolution as int, cell as int, r);
        lemma_sweep_ends(image_pixels(img), p, bits, color);
    }
    img
}

} // verus!
