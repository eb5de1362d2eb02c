//! Picking light colours from a palette.

use rand::Rng;
use vstd::prelude::*;

verus! {

/// `rand::thread_rng().gen_range(0..upper)` of the rand crate: a random
/// index below `upper`. Claimed: the result is below `upper`; which index
/// comes is left to chance, so nothing more is stated.
#[verifier::external_body]
fn random_index_below(upper: usize) -> (index: usize)
    requires
        upper > 0,
    ensures
        index < upper,
{
    rand::thread_rng().gen_range(0..upper)
}

/// The colour of the `i`-th of a row of lights: the palette is used in
/// order, starting again from its first colour when it runs out.
pub fn cycled_color<T: Copy>(palette: &Vec<T>, i: usize) -> (color: T)
    requires
        palette.len() > 0,
    ensures
        color == palette@[(i % palette.len()) as int],
{
    palette[i % palette.len()]
}

/// The colour at `index` of the palette: what a random draw of an index
/// selects.
pub fn pick_color<T: Copy>(palette: &Vec<T>, index: usize) -> (color: T)
    requires
        index < palette.len(),
    ensures
        color == palette@[index as int],
{
    palette[index]
}

/// A colour of the palette, picked at random: the palette entry at an index
/// drawn below the palette's length.
pub fn random_color<T: Copy>(palette: &Vec<T>) -> (color: T)
    requires
        palette.len() > 0,
    ensures
        palette@.contains(color),
{
    let index = random_index_below(palette.len());
    let color = pick_color(palette, index);
    assert(palette@[index as int] == color);
    color
}

/// Lights a whole palette apart get the same colour: the colours repeat
/// with the palette's length as period.
pub proof fn lemma_colors_repeat<T>(palette: Seq<T>, i: nat)
    requires
        palette.len() > 0,
    ensures
        palette[((i + palette.len()) % palette.len()) as int] == palette[(i % palette.len()) as int],
{
    vstd::arithmetic::div_mod::lemma_mod_add_multiples_vanish(i as int, palette.len() as int);
}

} // verus!
