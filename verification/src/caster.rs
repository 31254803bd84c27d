//! Casting one ray into a scene, and rendering a frame ray by ray.

use vstd::prelude::*;
use crate::camera::{
    camera_origin,
    camera_position,
    camera_ray,
    camera_ray_direction,
    center_pixel_looks_down_the_axis,
};
use crate::color::{background, Color};
use crate::framebuffer::Framebuffer;
use crate::geometry::ray_through_center_hits;
use crate::sphere::Sphere;
use crate::vector::{SpecVector3, Vector3};

verus! {

/// Whether sphere `i` is the first of `objects`, in scene order, that the ray
/// hits. Order in the scene decides, not distance from the origin.
pub open spec fn first_hit(
    origin: SpecVector3,
    direction: SpecVector3,
    objects: Seq<Sphere>,
    i: int,
) -> bool {
    &&& 0 <= i < objects.len()
    &&& objects[i].hit(origin, direction)
    &&& forall|j: int| 0 <= j < i ==> !(#[trigger] objects[j]).hit(origin, direction)
}

/// Whether the ray hits no sphere of `objects`.
pub open spec fn no_hit(origin: SpecVector3, direction: SpecVector3, objects: Seq<Sphere>) -> bool {
    forall|j: int| 0 <= j < objects.len() ==> !(#[trigger] objects[j]).hit(origin, direction)
}

/// The colour that a ray shows: that of the first sphere it hits, or the
/// background colour if it hits none.
pub open spec fn cast_color(
    origin: SpecVector3,
    direction: SpecVector3,
    objects: Seq<Sphere>,
) -> Color {
    if exists|i: int| first_hit(origin, direction, objects, i) {
        objects[choose|i: int| first_hit(origin, direction, objects, i)].color
    } else {
        background()
    }
}

/// The colour of pixel `(x, y)` in an image of `width` by `height` pixels of
/// the scene `objects`.
pub open spec fn pixel_color(x: int, y: int, width: int, height: int, objects: Seq<Sphere>) -> Color {
    cast_color(camera_position(), camera_ray_direction(x, y, width, height), objects)
}

/// At most one sphere is the first hit, and it gives the ray its colour.
pub proof fn first_hit_gives_color(
    origin: SpecVector3,
    direction: SpecVector3,
    objects: Seq<Sphere>,
    i: int,
)
    requires
        first_hit(origin, direction, objects, i),
    ensures
        cast_color(origin, direction, objects) == objects[i].color,
        forall|k: int| first_hit(origin, direction, objects, k) ==> k == i,
{
    assert forall|k: int| first_hit(origin, direction, objects, k) implies k == i by {
        if k < i {
            assert(!objects[k].hit(origin, direction));
        }
        if i < k {
            assert(!objects[i].hit(origin, direction));
        }
    }
}

/// A ray that hits nothing shows the background colour.
pub proof fn no_hit_gives_background(
    origin: SpecVector3,
    direction: SpecVector3,
    objects: Seq<Sphere>,
)
    requires
        no_hit(origin, direction, objects),
    ensures
        cast_color(origin, direction, objects) == background(),
{
    assert forall|i: int| !first_hit(origin, direction, objects, i) by {
        if 0 <= i < objects.len() {
            assert(!objects[i].hit(origin, direction));
        }
    }
}

/// The pixel whose centre is the centre of the image shows the first sphere
/// of the scene, if that sphere is centred on the camera's axis.
pub proof fn center_pixel_shows_first_sphere_on_axis(
    x: int,
    y: int,
    width: int,
    height: int,
    objects: Seq<Sphere>,
)
    requires
        2 * x + 1 == width,
        2 * y + 1 == height,
        0 < height,
        objects.len() > 0,
        objects[0].center.x == 0,
        objects[0].center.y == 0,
    ensures
        pixel_color(x, y, width, height, objects) == objects[0].color,
{
    let direction = camera_ray_direction(x, y, width, height);
    center_pixel_looks_down_the_axis(x, y, width, height);
    ray_through_center_hits(
        camera_position(),
        direction,
        objects[0].center@,
        objects[0].radius as int,
    );
    first_hit_gives_color(camera_position(), direction, objects, 0);
}

/// Finds the colour that the ray shows by testing the spheres in scene
/// order.
pub fn cast_ray(ray_origin: &Vector3, ray_direction: &Vector3, objects: &[Sphere]) -> (color: Color)
    ensures
        color == cast_color(ray_origin@, ray_direction@, objects@),
        forall|i: int|
            first_hit(ray_origin@, ray_direction@, objects@, i) ==> color == objects@[i].color,
        no_hit(ray_origin@, ray_direction@, objects@) ==> color == background(),
{
    let mut i: usize = 0;
    while i < objects.len()
        invariant
            i <= objects@.len(),
            forall|j: int| 0 <= j < i ==> !(#[trigger] objects@[j]).hit(ray_origin@, ray_direction@),
        decreases objects@.len() - i,
    {
        if objects[i].ray_intersect(ray_origin, ray_direction) {
            proof {
                first_hit_gives_color(ray_origin@, ray_direction@, objects@, i as int);
            }
            return objects[i].color;
        }
        i += 1;
    }
    proof {
        no_hit_gives_background(ray_origin@, ray_direction@, objects@);
    }
    Color { r: 4, g: 12, b: 36, a: 255 }
}

/// Draws the scene: every pixel of the framebuffer is overwritten with the
/// colour that the camera ray through it shows.
pub fn render(framebuffer: &mut Framebuffer, objects: &[Sphere])
    ensures
        final(framebuffer)@.width == old(framebuffer)@.width,
        final(framebuffer)@.height == old(framebuffer)@.height,
        final(framebuffer)@.background == old(framebuffer)@.background,
        final(framebuffer)@.well_formed(),
        forall|x: int, y: int|
            old(framebuffer)@.in_bounds(x, y) ==> #[trigger] final(framebuffer)@.pixel(x, y)
                == pixel_color(
                    x,
                    y,
                    old(framebuffer)@.width as int,
                    old(framebuffer)@.height as int,
                    objects@,
                ),
{
    let width: u16 = framebuffer.width();
    let height: u16 = framebuffer.height();
    let ray_origin = camera_origin();
    let mut y: u16 = 0;
    while y < height
        invariant
            y <= height,
            ray_origin@ == camera_position(),
            framebuffer@.width == width == old(framebuffer)@.width,
            framebuffer@.height == height == old(framebuffer)@.height,
            framebuffer@.background == old(framebuffer)@.background,
            framebuffer@.well_formed(),
            forall|px: int, py: int|
                0 <= px < width && 0 <= py < y ==> #[trigger] framebuffer@.pixel(px, py)
                    == pixel_color(px, py, width as int, height as int, objects@),
        decreases height - y,
    {
        let mut x: u16 = 0;
        while x < width
            invariant
                x <= width,
                y < height,
                ray_origin@ == camera_position(),
                framebuffer@.width == width == old(framebuffer)@.width,
                framebuffer@.height == height == old(framebuffer)@.height,
                framebuffer@.background == old(framebuffer)@.background,
                framebuffer@.well_formed(),
                forall|px: int, py: int|
                    0 <= px < width && 0 <= py < y ==> #[trigger] framebuffer@.pixel(px, py)
                        == pixel_color(px, py, width as int, height as int, objects@),
                forall|px: int|
                    0 <= px < x ==> #[trigger] framebuffer@.pixel(px, y as int)
                        == pixel_color(px, y as int, width as int, height as int, objects@),
            decreases width - x,
        {
            let ray_direction = camera_ray(x, y, width, height);
            let color = cast_ray(&ray_origin, &ray_direction, objects);
            let ghost before = framebuffer@;
            framebuffer.set_pixel(x, y, color);
            proof {
                assert forall|px: int, py: int| before.in_bounds(px, py) implies
                    #[trigger] framebuffer@.pixel(px, py) == if px == x && py == y {
                        color
                    } else {
                        before.pixel(px, py)
                    } by {
                    before.with_pixel_changes_one(x as int, y as int, color, px, py);
                }
            }
            x += 1;
        }
        y += 1;
    }
}

} // verus!
