//! One frame of the animation, and the counter that steps through them.
use crate::cube::FACES;
use crate::frame::blank_grid;
use crate::frame::Frame;
use crate::frame::Grid;
use crate::projection::cube_to_world;
use crate::projection::in_unit_range;
use crate::projection::lemma_rotation_can_project;
use crate::projection::project_vertices;
use crate::projection::rotation;
use crate::projection::screen_positions;
use crate::raster::draw_line;
use crate::raster::line_grid;
use crate::raster::Point;
use crate::visibility::cull;
use crate::visibility::is_back_facing;
use vstd::prelude::*;

verus! {

/// The screen position of corner `corner` of face `face`.
pub open spec fn face_corner(screen: Seq<Point>, face: int, corner: int) -> Point {
    screen[FACES[face][corner] as int]
}

/// The grid `g` with face `face` drawn over it: unchanged if the face turns
/// away from the viewer, and otherwise with its four edges drawn one after
/// the other, each from a corner to the corner before it, starting with the
/// edge from the first corner to the last.
pub open spec fn face_grid(g: Grid, screen: Seq<Point>, face: int) -> Grid {
    if is_back_facing(
        face_corner(screen, face, 0),
        face_corner(screen, face, 1),
        face_corner(screen, face, 2),
    ) {
        g
    } else {
        let first = line_grid(g, face_corner(screen, face, 0), face_corner(screen, face, 3));
        let second = line_grid(first, face_corner(screen, face, 1), face_corner(screen, face, 0));
        let third = line_grid(second, face_corner(screen, face, 2), face_corner(screen, face, 1));
        line_grid(third, face_corner(screen, face, 3), face_corner(screen, face, 2))
    }
}

/// The grid `g` with the first `count` faces drawn over it in their order.
pub open spec fn faces_grid(g: Grid, screen: Seq<Point>, count: nat) -> Grid
    decreases count,
{
    if count == 0 {
        g
    } else {
        face_grid(faces_grid(g, screen, (count - 1) as nat), screen, count - 1)
    }
}

/// The frame that shows the cube whose corners lie at `screen`.
pub open spec fn cube_grid(screen: Seq<Point>) -> Grid {
    faces_grid(blank_grid(), screen, 6)
}

/// The frame for the angle with the given cosine and sine.
pub open spec fn frame_grid(cos: i32, sin: i32) -> Grid {
    cube_grid(screen_positions(rotation(cos, sin)))
}

/// Draws one face of the cube into `frame`, unless it is culled.
pub fn draw_face(frame: &mut Frame, screen: &[Point; 8], face: usize)
    requires
        old(frame).wf(),
        face < 6,
    ensures
        final(frame).wf(),
        final(frame)@ == face_grid(old(frame)@, screen@, face as int),
{
    let corners: [u8; 4] = FACES[face];
    let p0 = screen[corners[0] as usize];
    let p1 = screen[corners[1] as usize];
    let p2 = screen[corners[2] as usize];
    let p3 = screen[corners[3] as usize];
    if !cull(p0, p1, p2) {
        draw_line(frame, p0, p3);
        draw_line(frame, p1, p0);
        draw_line(frame, p2, p1);
        draw_line(frame, p3, p2);
    }
}

/// Draws the six faces of the cube, in their order, into a blank frame.
pub fn draw_cube(screen: &[Point; 8]) -> (frame: Frame)
    ensures
        frame.wf(),
        frame@ == cube_grid(screen@),
{
    let mut frame = Frame::new();
    let mut face: usize = 0;
    while face < 6
        invariant
            face <= 6,
            frame.wf(),
            frame@ == faces_grid(blank_grid(), screen@, face as nat),
        decreases 6 - face,
    {
        draw_face(&mut frame, screen, face);
        face += 1;
    }
    frame
}

/// Renders the frame for the angle with the given cosine and sine: builds
/// the matrix, projects the corners, and draws the faces that are seen.
/// Values outside the unit range are no cosine or sine and give `None`.
pub fn render(cos: i32, sin: i32) -> (frame: Option<Frame>)
    ensures
        frame is Some <==> in_unit_range(cos) && in_unit_range(sin),
        frame matches Some(f) ==> f.wf() && f@ == frame_grid(cos, sin),
{
    match cube_to_world(cos, sin) {
        None => None,
        Some(m) => {
            proof {
                lemma_rotation_can_project(cos, sin);
            }
            match project_vertices(&m) {
                None => None,
                Some(screen) => Some(draw_cube(&screen)),
            }
        },
    }
}

/// The state of the animation: the number of the frame that comes next.
/// Frame `n` shows the cube turned by `n` hundredths of a radian.
pub struct Animation {
    pub frame_number: u64,
}

impl Animation {
    /// The animation before its first frame.
    pub fn new() -> (animation: Animation)
        ensures
            animation.frame_number == 0,
    {
        Animation { frame_number: 0 }
    }

    /// The number that follows `frame_number`; after the largest number the
    /// count starts again at zero.
    pub open spec fn following(frame_number: u64) -> u64 {
        if frame_number == u64::MAX {
            0
        } else {
            (frame_number + 1) as u64
        }
    }

    /// Renders the next frame from the cosine and sine of its angle, and
    /// steps to the frame after it. Values outside the unit range give
    /// `None` and leave the animation where it was.
    pub fn render_next(&mut self, cos: i32, sin: i32) -> (frame: Option<Frame>)
        ensures
            frame is Some <==> in_unit_range(cos) && in_unit_range(sin),
            frame matches Some(f) ==> f.wf() && f@ == frame_grid(cos, sin),
            final(self).frame_number == if frame is Some {
                Self::following(old(self).frame_number)
            } else {
                old(self).frame_number
            },
    {
        let frame = render(cos, sin);
        if frame.is_some() {
            self.frame_number = if self.frame_number == u64::MAX {
                0
            } else {
                self.frame_number + 1
            };
        }
        frame
    }
}

} // verus!
