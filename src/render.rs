use vstd::prelude::*;

use crate::geometry::Shape;
use crate::store::{
    active_handles, lemma_render_eligibility, BodyKind, Classification, Entity, EntityHandle,
    EntityStore,
};

verus! {

#[derive(Clone, Copy, Debug, PartialEq, Eq, Structural)]
pub enum DrawColor {
    Orange,
    Yellow,
    Red,
}

/// A draw primitive with its extents in device units (thousandths of a pixel).
#[derive(Clone, Copy, Debug, PartialEq, Eq, Structural)]
pub enum DrawShape {
    FilledCircle { radius: u64 },
    FilledRect { half_width: u64, half_height: u64 },
    RectOutline { half_width: u64, half_height: u64 },
}

/// One primitive to draw, centred at (`x`, `y`) in device units (thousandths of a pixel).
#[derive(Clone, Copy, Debug, PartialEq, Eq, Structural)]
pub struct DrawCommand {
    pub handle: EntityHandle,
    pub x: i64,
    pub y: i64,
    pub shape: DrawShape,
    pub color: DrawColor,
}

/// Boundaries are orange, pre-seeded entities yellow, user-spawned ones red.
pub open spec fn color_of(tag: Classification) -> DrawColor {
    match tag {
        Classification::Boundary => DrawColor::Orange,
        Classification::PreSeeded => DrawColor::Yellow,
        Classification::UserSpawned => DrawColor::Red,
    }
}

/// Static geometry is filled; a moving circle is filled, a moving box outlined.
pub open spec fn draw_shape_of(kind: BodyKind, shape: Shape, scale: u16) -> DrawShape {
    match shape {
        Shape::Circle { radius } => DrawShape::FilledCircle { radius: (radius * scale) as u64 },
        Shape::Rect { half_width, half_height } => if kind == BodyKind::Static {
            DrawShape::FilledRect {
                half_width: (half_width * scale) as u64,
                half_height: (half_height * scale) as u64,
            }
        } else {
            DrawShape::RectOutline {
                half_width: (half_width * scale) as u64,
                half_height: (half_height * scale) as u64,
            }
        },
    }
}

pub open spec fn draw_of(h: EntityHandle, e: Entity, scale: u16) -> DrawCommand {
    DrawCommand {
        handle: h,
        x: (e.position.x * scale) as i64,
        y: (e.position.y * scale) as i64,
        shape: draw_shape_of(e.kind, e.shape, scale),
        color: color_of(e.tag),
    }
}

/// Draws of the static entities among the first `n`, in store order.
pub open spec fn static_draws_upto(s: Seq<Entity>, n: nat, scale: u16) -> Seq<DrawCommand>
    decreases n,
{
    if n == 0 {
        Seq::empty()
    } else {
        let prev = static_draws_upto(s, (n - 1) as nat, scale);
        if s[n - 1].kind == BodyKind::Static {
            prev.push(draw_of(EntityHandle { index: (n - 1) as usize }, s[n - 1], scale))
        } else {
            prev
        }
    }
}

pub open spec fn static_draws(s: Seq<Entity>, scale: u16) -> Seq<DrawCommand> {
    static_draws_upto(s, s.len(), scale)
}

/// One draw for each active dynamic entity, in the order of the active handles.
pub open spec fn dynamic_draws(s: Seq<Entity>, scale: u16) -> Seq<DrawCommand> {
    active_handles(s).map_values(|h: EntityHandle| draw_of(h, s[h.index as int], scale))
}

pub fn color_for(tag: Classification) -> (r: DrawColor)
    ensures
        r == color_of(tag),
{
    match tag {
        Classification::Boundary => DrawColor::Orange,
        Classification::PreSeeded => DrawColor::Yellow,
        Classification::UserSpawned => DrawColor::Red,
    }
}

fn scale_extent(v: u32, scale: u16) -> (r: u64)
    ensures
        r == v * scale,
{
    proof {
        assert(v * scale <= u32::MAX * u16::MAX) by (nonlinear_arith)
            requires
                v <= u32::MAX,
                scale <= u16::MAX,
        ;
    }
    v as u64 * scale as u64
}

fn scale_coord(v: i32, scale: u16) -> (r: i64)
    ensures
        r == v * scale,
{
    proof {
        assert(i32::MIN * u16::MAX <= v * scale <= i32::MAX * u16::MAX) by (nonlinear_arith)
            requires
                i32::MIN <= v <= i32::MAX,
                0 <= scale <= u16::MAX,
        ;
    }
    v as i64 * scale as i64
}

/// The draw command for entity `e` behind handle `h`.
pub fn draw_command(h: EntityHandle, e: Entity, scale: u16) -> (r: DrawCommand)
    ensures
        r == draw_of(h, e, scale),
{
    let shape = match e.shape {
        Shape::Circle { radius } => DrawShape::FilledCircle { radius: scale_extent(radius, scale) },
        Shape::Rect { half_width, half_height } => match e.kind {
            BodyKind::Static => DrawShape::FilledRect {
                half_width: scale_extent(half_width, scale),
                half_height: scale_extent(half_height, scale),
            },
            BodyKind::Dynamic => DrawShape::RectOutline {
                half_width: scale_extent(half_width, scale),
                half_height: scale_extent(half_height, scale),
            },
        },
    };
    DrawCommand {
        handle: h,
        x: scale_coord(e.position.x, scale),
        y: scale_coord(e.position.y, scale),
        shape,
        color: color_for(e.tag),
    }
}

/// Draws of the boundary geometry, drawn on every frame.
pub fn static_draw_list(store: &EntityStore, scale: u16) -> (r: Vec<DrawCommand>)
    ensures
        r@ == static_draws(store@, scale),
{
    let n = store.len();
    let mut r: Vec<DrawCommand> = Vec::new();
    let mut i: usize = 0;
    while i < n
        invariant
            n == store@.len(),
            i <= n,
            r@ == static_draws_upto(store@, i as nat, scale),
        decreases n - i,
    {
        let h = EntityHandle { index: i };
        let e = match store.get(h) {
            Ok(e) => e,
            Err(_) => {
                return r;
            },
        };
        match e.kind {
            BodyKind::Static => {
                r.push(draw_command(h, e, scale));
            },
            BodyKind::Dynamic => {},
        }
        i = i + 1;
    }
    r
}

/// Draws of the active dynamic entities, from their most recently stepped state.
pub fn dynamic_draw_list(store: &EntityStore, scale: u16) -> (r: Vec<DrawCommand>)
    requires
        store.wf(),
    ensures
        r@ == dynamic_draws(store@, scale),
{
    let n = store.len();
    let handles = store.active_dynamic_handles();
    let mut r: Vec<DrawCommand> = Vec::new();
    let mut k: usize = 0;
    while k < handles.len()
        invariant
            n == store@.len(),
            store.wf(),
            handles@ == active_handles(store@),
            k <= handles@.len(),
            r@ == handles@.take(k as int).map_values(
                |h: EntityHandle| draw_of(h, store@[h.index as int], scale),
            ),
        decreases handles@.len() - k,
    {
        let h = handles[k];
        proof {
            lemma_render_eligibility(store@, h);
            assert(handles@.contains(h));
        }
        let e = match store.get(h) {
            Ok(e) => e,
            Err(_) => {
                return r;
            },
        };
        r.push(draw_command(h, e, scale));
        proof {
            assert(handles@.take(k + 1) =~= handles@.take(k as int).push(h));
            assert(r@ =~= handles@.take(k + 1).map_values(
                |h: EntityHandle| draw_of(h, store@[h.index as int], scale),
            ));
        }
        k = k + 1;
    }
    proof {
        assert(handles@.take(k as int) =~= handles@);
    }
    r
}

/// Everything to draw this frame: the boundaries, then the active dynamic entities.
pub fn draw_list(store: &EntityStore, scale: u16) -> (r: Vec<DrawCommand>)
    requires
        store.wf(),
    ensures
        r@ == static_draws(store@, scale) + dynamic_draws(store@, scale),
{
    let mut r = static_draw_list(store, scale);
    let mut d = dynamic_draw_list(store, scale);
    r.append(&mut d);
    r
}

} // verus!
