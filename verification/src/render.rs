//! Painter's-order compositing: what one pixel shows once every sphere of
//! the scene has been tried against its ray, in scene order.

use vstd::prelude::*;

verus! {

/// The colour of a pixel that starts as `background` and is then painted
/// over with each sample that hit, in order. A sample is `Some` colour where
/// the sphere of that place in the scene was hit and `None` where it was
/// missed, so the pixel shows the last sphere that was hit, however near or
/// far it lies; with no hit it shows the background.
pub open spec fn painted<C>(background: C, samples: Seq<Option<C>>) -> C
    decreases samples.len(),
{
    if samples.len() == 0 {
        background
    } else {
        match samples.last() {
            Some(colour) => colour,
            None => painted(background, samples.drop_last()),
        }
    }
}

/// Paints the samples of one pixel over `background`, in order.
pub fn composite<C: Copy>(background: C, samples: &Vec<Option<C>>) -> (colour: C)
    ensures
        colour == painted(background, samples@),
{
    let mut colour: C = background;
    let mut k: usize = 0;
    while k < samples.len()
        invariant
            k <= samples.len(),
            colour == painted(background, samples@.take(k as int)),
        decreases samples.len() - k,
    {
        proof {
            let next: Seq<Option<C>> = samples@.take(k + 1);
            assert(next.drop_last() == samples@.take(k as int));
        }
        match samples[k] {
            Some(shade) => {
                colour = shade;
            },
            None => {},
        }
        k += 1;
    }
    assert(samples@.take(k as int) == samples@);
    colour
}

/// The last hit wins: a pixel shows the colour of the sample at `k` where
/// that sample hit and none after it did, whatever came before it.
pub proof fn lemma_last_hit_wins<C>(background: C, samples: Seq<Option<C>>, k: int)
    requires
        0 <= k < samples.len(),
        samples[k] is Some,
        forall|j: int| k < j < samples.len() ==> samples[j] is None,
    ensures
        painted(background, samples) == samples[k]->0,
    decreases samples.len(),
{
    if k < samples.len() - 1 {
        lemma_last_hit_wins(background, samples.drop_last(), k);
    }
}

/// A pixel whose ray hit nothing keeps the background.
pub proof fn lemma_no_hit_keeps_background<C>(background: C, samples: Seq<Option<C>>)
    requires
        forall|j: int| 0 <= j < samples.len() ==> samples[j] is None,
    ensures
        painted(background, samples) == background,
    decreases samples.len(),
{
    if samples.len() > 0 {
        lemma_no_hit_keeps_background(background, samples.drop_last());
    }
}

/// Of two spheres that are both hit, the one that comes later in the scene
/// gives the pixel its colour.
pub proof fn lemma_later_sphere_covers_earlier<C>(background: C, earlier: C, later: C)
    ensures
        painted(background, seq![Some(earlier), Some(later)]) == later,
{
    lemma_last_hit_wins(background, seq![Some(earlier), Some(later)], 1);
}

} // verus!
