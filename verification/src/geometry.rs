//! The fixed relation between the logical viewport the guest sees and the
//! physical panel it is drawn on.
use vstd::prelude::*;

use crate::damage::Rect;
use crate::text::str_equals;

verus! {

/// A logical viewport rendered at an integer density, and the panel the
/// render is shown on, turned by `rotation` (clockwise). A quarter turn
/// swaps the panel's width and height.
#[derive(Clone, Copy, Debug, PartialEq, Eq)]
pub struct Geometry {
    pub logical_w: usize,
    pub logical_h: usize,
    pub density: usize,
    pub panel_w: usize,
    pub panel_h: usize,
    pub rotation: Rotation,
}

/// Why a panel was refused.
#[derive(Clone, Copy, Debug, PartialEq, Eq)]
pub enum GeometryError {
    /// The panel is not the logical viewport scaled by the density in the
    /// requested orientation, or a dimension is zero or beyond what a
    /// logical coordinate can carry.
    Unsupported,
}

/// A panel orientation a user may ask for, clockwise from upright.
#[derive(Clone, Copy, Debug, PartialEq, Eq, Structural)]
pub enum Rotation {
    Deg0,
    Deg90,
    Deg180,
    Deg270,
}

/// A rotation word that is none of `auto`, `0`, `90`, `180` and `270`.
#[derive(Clone, Debug, PartialEq, Eq)]
pub struct RotationError {
    pub value: String,
}

/// The text of the error for a refused rotation word.
pub open spec fn rotation_error_text(value: Seq<char>) -> Seq<char> {
    "rotation must be auto, 0, 90, 180 or 270 (got "@ + crate::text::str_debug(value) + ")"@
}

/// Formats the refusal of a rotation word with `format!`, quoting the word as
/// `{:?}` does.
#[verifier::external_body]
fn describe_rotation_error(value: &str) -> (m: String)
    ensures
        m@ == "rotation must be auto, 0, 90, 180 or 270 (got "@ + crate::text::str_debug(value@)
            + ")"@,
{
    format!("rotation must be auto, 0, 90, 180 or 270 (got {value:?})")
}

impl RotationError {
    pub fn message(&self) -> (m: String)
        ensures
            m@ == rotation_error_text(self.value@),
    {
        describe_rotation_error(self.value.as_str())
    }
}

/// The rotation a word names: `auto` leaves the choice to the panel, the
/// others are degrees clockwise; any other word is refused.
pub open spec fn spec_rotation(value: Seq<char>) -> Option<Option<Rotation>> {
    if value == "auto"@ {
        Some(None)
    } else if value == "0"@ {
        Some(Some(Rotation::Deg0))
    } else if value == "90"@ {
        Some(Some(Rotation::Deg90))
    } else if value == "180"@ {
        Some(Some(Rotation::Deg180))
    } else if value == "270"@ {
        Some(Some(Rotation::Deg270))
    } else {
        None
    }
}

impl Rotation {
    /// Reads `auto`, `0`, `90`, `180` or `270`.
    pub fn parse(value: &str) -> (r: Result<Option<Rotation>, RotationError>)
        ensures
            r matches Ok(choice) ==> spec_rotation(value@) == Some(choice),
            r is Err <==> spec_rotation(value@) is None,
            r matches Err(e) ==> e.value@ == value@,
    {
        if str_equals(value, "auto") {
            Ok(None)
        } else if str_equals(value, "0") {
            Ok(Some(Rotation::Deg0))
        } else if str_equals(value, "90") {
            Ok(Some(Rotation::Deg90))
        } else if str_equals(value, "180") {
            Ok(Some(Rotation::Deg180))
        } else if str_equals(value, "270") {
            Ok(Some(Rotation::Deg270))
        } else {
            Err(RotationError { value: value.to_owned() })
        }
    }
}

impl GeometryError {
    pub fn message(&self) -> (m: String)
        ensures
            m@ == "panel is not the logical viewport at the given density"@,
    {
        "panel is not the logical viewport at the given density".to_owned()
    }
}

/// A quarter turn swaps the panel's axes.
pub open spec fn quarter_turn(r: Rotation) -> bool {
    r == Rotation::Deg90 || r == Rotation::Deg270
}

/// The panel a render of `render_w` by `render_h` pixels becomes under `r`.
pub open spec fn turned_dims(render_w: int, render_h: int, r: Rotation) -> (int, int) {
    if quarter_turn(r) {
        (render_h, render_w)
    } else {
        (render_w, render_h)
    }
}

impl Geometry {
    /// The width of the render, in pixels.
    pub open spec fn render_w(self) -> int {
        self.logical_w * self.density
    }

    /// The height of the render, in pixels.
    pub open spec fn render_h(self) -> int {
        self.logical_h * self.density
    }

    /// Dimensions agree: the panel is the render, turned, and a logical
    /// coordinate fits in a `u32`.
    pub open spec fn wf(self) -> bool {
        &&& self.density >= 1
        &&& 1 <= self.logical_w <= u32::MAX
        &&& 1 <= self.logical_h <= u32::MAX
        &&& (self.panel_w as int, self.panel_h as int) == turned_dims(
            self.render_w(),
            self.render_h(),
            self.rotation,
        )
    }

    /// The render pixel a panel pixel shows.
    pub open spec fn spec_panel_to_render(self, px: int, py: int) -> (int, int) {
        match self.rotation {
            Rotation::Deg0 => (px, py),
            Rotation::Deg90 => (py, self.render_h() - 1 - px),
            Rotation::Deg180 => (self.render_w() - 1 - px, self.render_h() - 1 - py),
            Rotation::Deg270 => (self.render_w() - 1 - py, px),
        }
    }

    /// The panel pixel a render pixel lands on.
    pub open spec fn spec_render_to_panel(self, x: int, y: int) -> (int, int) {
        match self.rotation {
            Rotation::Deg0 => (x, y),
            Rotation::Deg90 => (self.render_h() - 1 - y, x),
            Rotation::Deg180 => (self.render_w() - 1 - x, self.render_h() - 1 - y),
            Rotation::Deg270 => (y, self.render_w() - 1 - x),
        }
    }

    /// The logical coordinate a panel pixel belongs to.
    pub open spec fn spec_panel_to_logical(self, px: int, py: int) -> (int, int) {
        let (x, y) = self.spec_panel_to_render(px, py);
        (x / self.density as int, y / self.density as int)
    }

    /// The panel rectangle a render rectangle lands on.
    pub open spec fn spec_render_rect_to_panel(self, r: Rect) -> Rect {
        match self.rotation {
            Rotation::Deg0 => r,
            Rotation::Deg90 => Rect {
                x: (self.render_h() - r.y - r.h) as usize,
                y: r.x,
                w: r.h,
                h: r.w,
            },
            Rotation::Deg180 => Rect {
                x: (self.render_w() - r.x - r.w) as usize,
                y: (self.render_h() - r.y - r.h) as usize,
                w: r.w,
                h: r.h,
            },
            Rotation::Deg270 => Rect {
                x: r.y,
                y: (self.render_w() - r.x - r.w) as usize,
                w: r.h,
                h: r.w,
            },
        }
    }

    /// Accepts exactly the geometry it is told about: a panel that is the
    /// logical viewport at `density`, in the requested orientation; with no
    /// request, upright when the panel has the render's shape and a quarter
    /// turn clockwise when it has the turned shape.
    pub fn exact(
        logical_w: usize,
        logical_h: usize,
        density: usize,
        panel_w: usize,
        panel_h: usize,
        requested: Option<Rotation>,
    ) -> (r: Result<Geometry, GeometryError>)
        ensures
            ({
                let fits = density >= 1 && 1 <= logical_w <= u32::MAX && 1 <= logical_h <= u32::MAX;
                let rw = logical_w * density;
                let rh = logical_h * density;
                let chosen = match requested {
                    Some(rot) => Some(rot),
                    None => if (panel_w as int, panel_h as int) == (rw, rh) {
                        Some(Rotation::Deg0)
                    } else if (panel_w as int, panel_h as int) == (rh, rw) {
                        Some(Rotation::Deg90)
                    } else {
                        None
                    },
                };
                &&& r is Ok <==> fits && chosen is Some && (panel_w as int, panel_h as int)
                    == turned_dims(rw, rh, chosen->0)
                &&& r matches Ok(g) ==> g.wf() && g == (Geometry {
                    logical_w,
                    logical_h,
                    density,
                    panel_w,
                    panel_h,
                    rotation: chosen->0,
                })
            }),
    {
        if density == 0 || logical_w == 0 || logical_h == 0 || logical_w > 0xffff_ffff
            || logical_h > 0xffff_ffff {
            return Err(GeometryError::Unsupported);
        }
        let rw: usize = match logical_w.checked_mul(density) {
            Some(v) => v,
            None => {
                proof {
                    assert(logical_w * density > usize::MAX);
                    assert(logical_w * density >= density) by (nonlinear_arith)
                        requires
                            logical_w >= 1,
                            density >= 1,
                    ;
                }
                return Err(GeometryError::Unsupported);
            },
        };
        let rh: usize = match logical_h.checked_mul(density) {
            Some(v) => v,
            None => return Err(GeometryError::Unsupported),
        };
        let rotation: Rotation = match requested {
            Some(rot) => rot,
            None => if panel_w == rw && panel_h == rh {
                Rotation::Deg0
            } else if panel_w == rh && panel_h == rw {
                Rotation::Deg90
            } else {
                return Err(GeometryError::Unsupported);
            },
        };
        let turned: bool = match rotation {
            Rotation::Deg90 | Rotation::Deg270 => true,
            _ => false,
        };
        let ok: bool = if turned {
            panel_w == rh && panel_h == rw
        } else {
            panel_w == rw && panel_h == rh
        };
        if !ok {
            return Err(GeometryError::Unsupported);
        }
        Ok(Geometry { logical_w, logical_h, density, panel_w, panel_h, rotation })
    }

    /// The render pixel a panel pixel shows.
    pub fn panel_to_render(&self, panel_x: usize, panel_y: usize) -> (r: (usize, usize))
        requires
            self.wf(),
            panel_x < self.panel_w,
            panel_y < self.panel_h,
        ensures
            (r.0 as int, r.1 as int) == self.spec_panel_to_render(panel_x as int, panel_y as int),
            r.0 < self.render_w(),
            r.1 < self.render_h(),
    {
        let rw: usize = self.logical_w * self.density;
        let rh: usize = self.logical_h * self.density;
        match self.rotation {
            Rotation::Deg0 => (panel_x, panel_y),
            Rotation::Deg90 => (panel_y, rh - 1 - panel_x),
            Rotation::Deg180 => (rw - 1 - panel_x, rh - 1 - panel_y),
            Rotation::Deg270 => (rw - 1 - panel_y, panel_x),
        }
    }

    /// The logical coordinate a panel pixel belongs to.
    pub fn panel_to_logical(&self, panel_x: usize, panel_y: usize) -> (r: (u32, u32))
        requires
            self.wf(),
            panel_x < self.panel_w,
            panel_y < self.panel_h,
        ensures
            (r.0 as int, r.1 as int) == self.spec_panel_to_logical(panel_x as int, panel_y as int),
            r.0 < self.logical_w,
            r.1 < self.logical_h,
    {
        let (x, y) = self.panel_to_render(panel_x, panel_y);
        proof {
            lemma_scaled_down(x as int, self.logical_w as int, self.density as int);
            lemma_scaled_down(y as int, self.logical_h as int, self.density as int);
        }
        ((x / self.density) as u32, (y / self.density) as u32)
    }

    /// The panel rectangle a render rectangle lands on.
    pub fn render_rect_to_panel(&self, rect: Rect) -> (r: Rect)
        requires
            self.wf(),
            rect.x + rect.w <= self.render_w(),
            rect.y + rect.h <= self.render_h(),
        ensures
            r == self.spec_render_rect_to_panel(rect),
            r.x + r.w <= self.panel_w,
            r.y + r.h <= self.panel_h,
    {
        let rw: usize = self.logical_w * self.density;
        let rh: usize = self.logical_h * self.density;
        match self.rotation {
            Rotation::Deg0 => rect,
            Rotation::Deg90 => Rect { x: rh - rect.y - rect.h, y: rect.x, w: rect.h, h: rect.w },
            Rotation::Deg180 => Rect {
                x: rw - rect.x - rect.w,
                y: rh - rect.y - rect.h,
                w: rect.w,
                h: rect.h,
            },
            Rotation::Deg270 => Rect { x: rect.y, y: rw - rect.x - rect.w, w: rect.h, h: rect.w },
        }
    }
}

proof fn lemma_scaled_down(x: int, logical: int, density: int)
    requires
        density >= 1,
        0 <= x < logical * density,
    ensures
        0 <= x / density < logical,
{
    assert(0 <= x / density < logical) by (nonlinear_arith)
        requires
            density >= 1,
            0 <= x < logical * density,
    ;
}

/// Turning a panel pixel back to the render and forward again gives the same
/// pixel: each panel pixel shows exactly one render pixel.
pub proof fn law_panel_and_render_correspond(g: Geometry, px: int, py: int)
    requires
        g.wf(),
        0 <= px < g.panel_w,
        0 <= py < g.panel_h,
    ensures
        ({
            let (x, y) = g.spec_panel_to_render(px, py);
            &&& 0 <= x < g.render_w() && 0 <= y < g.render_h()
            &&& g.spec_render_to_panel(x, y) == (px, py)
        }),
{
}

/// A panel whose geometry is well formed has at least one pixel each way.
pub proof fn lemma_panel_nonempty(g: Geometry)
    requires
        g.wf(),
    ensures
        g.panel_w >= 1,
        g.panel_h >= 1,
        g.render_w() >= 1,
        g.render_h() >= 1,
{
    assert(g.render_w() >= 1 && g.render_h() >= 1) by (nonlinear_arith)
        requires
            g.density >= 1,
            g.logical_w >= 1,
            g.logical_h >= 1,
    ;
}


/// `r` covers the pixel `(x, y)`.
pub open spec fn covers(r: Rect, x: int, y: int) -> bool {
    r.x <= x < r.x + r.w && r.y <= y < r.y + r.h
}

/// A damage rectangle lands on exactly the panel pixels that show it: a
/// panel pixel lies in the turned rectangle if and only if the render pixel
/// it shows lies in the rectangle, and the turned rectangle stays on the
/// panel.
pub proof fn law_turned_damage_covers_what_it_shows(g: Geometry, r: Rect, px: int, py: int)
    requires
        g.wf(),
        r.x + r.w <= g.render_w(),
        r.y + r.h <= g.render_h(),
        0 <= px < g.panel_w,
        0 <= py < g.panel_h,
    ensures
        ({
            let (x, y) = g.spec_panel_to_render(px, py);
            covers(r, x, y) <==> covers(g.spec_render_rect_to_panel(r), px, py)
        }),
        g.spec_render_rect_to_panel(r).x + g.spec_render_rect_to_panel(r).w <= g.panel_w,
        g.spec_render_rect_to_panel(r).y + g.spec_render_rect_to_panel(r).h <= g.panel_h,
{
}


/// What each orientation means: the render's top-left pixel shows at the
/// panel's top-left (upright), top-right (a quarter turn clockwise),
/// bottom-right (a half turn) or bottom-left (three quarters), and one step
/// along the render's row moves one panel pixel down, left, up or right.
pub proof fn law_orientation_places_the_origin(g: Geometry, x: int, y: int)
    requires
        g.wf(),
        0 <= x < g.render_w() - 1,
        0 <= y < g.render_h(),
    ensures
        g.rotation == Rotation::Deg0 ==> g.spec_render_to_panel(0, 0) == (0int, 0int),
        g.rotation == Rotation::Deg90 ==> g.spec_render_to_panel(0, 0) == (g.panel_w - 1, 0int),
        g.rotation == Rotation::Deg180 ==> g.spec_render_to_panel(0, 0) == (g.panel_w - 1, g.panel_h
            - 1),
        g.rotation == Rotation::Deg270 ==> g.spec_render_to_panel(0, 0) == (0int, g.panel_h - 1),
        ({
            let (px, py) = g.spec_render_to_panel(x, y);
            let (qx, qy) = g.spec_render_to_panel(x + 1, y);
            &&& g.rotation == Rotation::Deg0 ==> qx == px + 1 && qy == py
            &&& g.rotation == Rotation::Deg90 ==> qx == px && qy == py + 1
            &&& g.rotation == Rotation::Deg180 ==> qx == px - 1 && qy == py
            &&& g.rotation == Rotation::Deg270 ==> qx == px && qy == py - 1
        }),
{
}


/// Each logical coordinate is a cell of `density` by `density` render
/// pixels: a panel pixel belongs to the logical coordinate whose cell holds
/// the render pixel it shows.
pub proof fn law_logical_cells_hold_their_pixels(g: Geometry, px: int, py: int)
    requires
        g.wf(),
        0 <= px < g.panel_w,
        0 <= py < g.panel_h,
    ensures
        ({
            let (x, y) = g.spec_panel_to_render(px, py);
            let (lx, ly) = g.spec_panel_to_logical(px, py);
            &&& 0 <= lx < g.logical_w && 0 <= ly < g.logical_h
            &&& lx * g.density <= x < lx * g.density + g.density
            &&& ly * g.density <= y < ly * g.density + g.density
        }),
{
    let (x, y) = g.spec_panel_to_render(px, py);
    let d = g.density as int;
    lemma_scaled_down(x, g.logical_w as int, d);
    lemma_scaled_down(y, g.logical_h as int, d);
    lemma_in_cell(x, d);
    lemma_in_cell(y, d);
}

proof fn lemma_in_cell(x: int, d: int)
    requires
        d >= 1,
        0 <= x,
    ensures
        (x / d) * d <= x < (x / d) * d + d,
{
    vstd::arithmetic::div_mod::lemma_fundamental_div_mod(x, d);
    assert((x / d) * d == d * (x / d)) by (nonlinear_arith);
}

} // verus!
