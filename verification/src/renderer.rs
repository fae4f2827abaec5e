use vstd::prelude::*;

verus! {

/// The size to render at after a resize request: the requested size when
/// both sides are positive; otherwise the request is ignored.
pub fn resized_surface(current: (u32, u32), new_size: (u32, u32)) -> (r: (u32, u32))
    ensures
        r == (if new_size.0 > 0 && new_size.1 > 0 {
            new_size
        } else {
            current
        }),
{
    if new_size.0 > 0 && new_size.1 > 0 {
        new_size
    } else {
        current
    }
}

} // verus!
