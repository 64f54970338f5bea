//! Target hand-off messages: four numbers, a position and a velocity.
use vstd::prelude::*;
use crate::vec2::Vec2;

verus! {

/// The wire shape of a message: `[px, py, vx, vy]`.
pub type Message = [i64; 4];

pub open spec fn encode_spec(p: Vec2, v: Vec2) -> Seq<i64> {
    seq![p.x, p.y, v.x, v.y]
}

pub open spec fn decode_spec(msg: Option<Seq<i64>>) -> (Vec2, Vec2) {
    match msg {
        Some(m) => (Vec2 { x: m[0], y: m[1] }, Vec2 { x: m[2], y: m[3] }),
        None => (Vec2 { x: 0, y: 0 }, Vec2 { x: 0, y: 0 }),
    }
}

/// Encodes a target's position and velocity.
pub fn make_orders(p: Vec2, v: Vec2) -> (r: Message)
    ensures
        r@ == encode_spec(p, v),
{
    let r = [p.x, p.y, v.x, v.y];
    assert(r@ =~= encode_spec(p, v));
    r
}

/// Decodes a target's position and velocity; no message gives the origin at rest.
pub fn parse_orders(msg: Option<Message>) -> (r: (Vec2, Vec2))
    ensures
        r == decode_spec(
            match msg {
                Some(m) => Some(m@),
                None => None,
            },
        ),
{
    match msg {
        Some(m) => (Vec2 { x: m[0], y: m[1] }, Vec2 { x: m[2], y: m[3] }),
        None => (Vec2 { x: 0, y: 0 }, Vec2 { x: 0, y: 0 }),
    }
}

/// Decoding an encoded message gives back the position and velocity.
pub proof fn lemma_orders_round_trip(p: Vec2, v: Vec2)
    ensures
        decode_spec(Some(encode_spec(p, v))) == (p, v),
{
}

} // verus!
