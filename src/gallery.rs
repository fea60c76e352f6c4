use vstd::prelude::*;
use crate::cache::TextureCache;
use crate::hover::HoverSet;
use crate::layout::{fit, fit_spec, FitResult, Size};
use crate::shots::RecentShot;

verus! {

/// What is drawn for one capture in a frame.
#[derive(Clone, Copy, Debug, PartialEq, Eq, Structural)]
pub struct CardPlan {
    /// Position of the capture in the gallery's list.
    pub shot_index: usize,
    /// The box that the preview is fitted into.
    pub container: Size,
    /// Where the preview is drawn inside `container`.
    pub placement: FitResult,
    /// Whether the action overlay is shown.
    pub hovered: bool,
}

/// The preview box of a card: the full available width, with a 3:2 aspect
/// ratio, its height rounded down to whole pixels.
pub open spec fn card_spec(available_width: u32) -> Size {
    Size { width: available_width, height: (2 * available_width / 3) as u32 }
}

/// The preview box of a card for the given available width.
pub fn card_container(available_width: u32) -> (r: Size)
    ensures
        r == card_spec(available_width),
{
    let height = (available_width as u64) * 2 / 3;
    Size { width: available_width, height: height as u32 }
}

/// The cards of a frame: the captures in list order, each with a cached
/// image and a drawable placement, the others skipped.
pub open spec fn planned_cards<H>(
    shots: Seq<RecentShot>,
    cache: Map<Seq<char>, (H, Size)>,
    hovered: Set<Seq<char>>,
    available_width: u32,
) -> Seq<CardPlan>
    decreases shots.len(),
{
    if shots.len() == 0 {
        Seq::empty()
    } else {
        let before = planned_cards(shots.drop_last(), cache, hovered, available_width);
        let i = shots.len() - 1;
        let name = shots[i].name@;
        if cache.contains_key(name) {
            match fit_spec(card_spec(available_width), cache[name].1) {
                Some(f) => before.push(
                    CardPlan {
                        shot_index: i as usize,
                        container: card_spec(available_width),
                        placement: f,
                        hovered: hovered.contains(name),
                    },
                ),
                None => before,
            }
        } else {
            before
        }
    }
}

/// How many captures have an image in the cache.
pub open spec fn count_cached<H>(shots: Seq<RecentShot>, cache: Map<Seq<char>, (H, Size)>) -> nat
    decreases shots.len(),
{
    if shots.len() == 0 {
        0
    } else {
        count_cached(shots.drop_last(), cache) + if cache.contains_key(shots.last().name@) {
            1nat
        } else {
            0nat
        }
    }
}

/// When the preview box has an area and every cached image has one too, each
/// capture whose image is cached gets a card: a missing image costs only its
/// own card.
pub proof fn lemma_every_cached_shot_is_drawn<H>(
    shots: Seq<RecentShot>,
    cache: Map<Seq<char>, (H, Size)>,
    hovered: Set<Seq<char>>,
    available_width: u32,
)
    requires
        available_width >= 2,
        forall|k: Seq<char>| #[trigger] cache.contains_key(k) ==> cache[k].1.is_positive(),
    ensures
        planned_cards(shots, cache, hovered, available_width).len() == count_cached(shots, cache),
    decreases shots.len(),
{
    if shots.len() > 0 {
        lemma_every_cached_shot_is_drawn(shots.drop_last(), cache, hovered, available_width);
    }
}

/// Lays out one frame of the gallery: for each capture, in order, whose image
/// is cached, the card's preview box, the placement of the image in it, and
/// whether its overlay shows. Captures without a cached image, or whose
/// placement has no area, are skipped.
pub fn plan_gallery<H>(
    shots: &Vec<RecentShot>,
    cache: &TextureCache<H>,
    hover: &HoverSet,
    available_width: u32,
) -> (r: Vec<CardPlan>)
    ensures
        r@ == planned_cards(shots@, cache@, hover@, available_width),
{
    let container = card_container(available_width);
    let mut cards: Vec<CardPlan> = Vec::new();
    let mut i: usize = 0;
    while i < shots.len()
        invariant
            i <= shots@.len(),
            container == card_spec(available_width),
            cards@ == planned_cards(shots@.take(i as int), cache@, hover@, available_width),
        decreases shots@.len() - i,
    {
        let shot = &shots[i];
        assert(shots@.take(i as int + 1).drop_last() =~= shots@.take(i as int));
        match cache.lookup(shot.name.as_str()) {
            Some(entry) => {
                match fit(container, entry.1) {
                    Some(placement) => {
                        let hovered = hover.contains(shot.name.as_str());
                        cards.push(CardPlan { shot_index: i, container, placement, hovered });
                    },
                    None => {},
                }
            },
            None => {},
        }
        i = i + 1;
    }
    assert(shots@.take(shots@.len() as int) =~= shots@);
    cards
}

} // verus!
