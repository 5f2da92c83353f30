//! Which area under the mouse captures it, and with which button events.
use vstd::prelude::*;
use crate::genindex::Entity;
use crate::input::GameButtonState;

verus! {

/// Marks a capture layer that currently takes part in mouse capture.
#[derive(Debug)]
pub struct ActiveCaptureLayer {}

/// A set of areas that can capture the mouse; layers with a higher
/// `sort_index` are asked first.
#[derive(Debug)]
pub struct MouseCaptureLayer {
    pub sort_index: u32,
    pub capture_areas: Vec<Entity>,
}

/// Gives the mouse to `area`, with the state of the five mouse buttons.
#[derive(Debug)]
pub struct MouseCaptureMutation {
    pub area: Entity,
    pub down_buttons: [bool; 5],
    pub clicked_buttons: [bool; 5],
    pub released_buttons: [bool; 5],
}

/// Takes the mouse from every area but `excluded`.
#[derive(Debug)]
pub struct ClearOthersMutation {
    pub excluded: Option<Entity>,
}

/// What an area (rectangular or hexagonal) knows of the mouse: whether it
/// holds the mouse, and the button flags of the frame if so.
#[derive(Debug, Clone, Copy)]
pub struct CaptureAreaState {
    pub is_hovered: bool,
    pub down_buttons: [bool; 5],
    pub clicked_buttons: [bool; 5],
    pub released_buttons: [bool; 5],
}

/// The state of an area that does not hold the mouse: not hovered, no
/// button flag set.
pub open spec fn is_cleared(s: CaptureAreaState) -> bool {
    &&& !s.is_hovered
    &&& forall|i: int|
        0 <= i < 5 ==> !(#[trigger] s.down_buttons@[i]) && !s.clicked_buttons@[i]
            && !s.released_buttons@[i]
}

impl MouseCaptureMutation {
    /// The state an area has once it holds the mouse.
    pub open spec fn captured_state(&self) -> CaptureAreaState {
        CaptureAreaState {
            is_hovered: true,
            down_buttons: self.down_buttons,
            clicked_buttons: self.clicked_buttons,
            released_buttons: self.released_buttons,
        }
    }

    /// `after` is `before` with the mouse and the button flags given to every
    /// area of entity `self.area`, and every other area as it was.
    pub open spec fn applied(
        &self,
        before: Seq<(Entity, CaptureAreaState)>,
        after: Seq<(Entity, CaptureAreaState)>,
    ) -> bool {
        &&& after.len() == before.len()
        &&& forall|i: int|
            0 <= i < before.len() ==> #[trigger] after[i] == if before[i].0 == self.area {
                (before[i].0, self.captured_state())
            } else {
                before[i]
            }
    }

    /// Gives the mouse and the button flags to every area of entity
    /// `self.area`; the other areas keep their state.
    pub fn apply(&self, areas: &mut Vec<(Entity, CaptureAreaState)>)
        ensures
            self.applied(old(areas)@, final(areas)@),
    {
        let n = areas.len();
        let mut i: usize = 0;
        while i < n
            invariant
                n == old(areas)@.len(),
                areas@.len() == n,
                i <= n,
                forall|k: int|
                    0 <= k < n ==> #[trigger] areas@[k] == if k < i && old(areas)@[k].0 == self.area {
                        (old(areas)@[k].0, self.captured_state())
                    } else {
                        old(areas)@[k]
                    },
            decreases n - i,
        {
            let entity = areas[i].0;
            if entity == self.area {
                let state = CaptureAreaState {
                    is_hovered: true,
                    down_buttons: self.down_buttons,
                    clicked_buttons: self.clicked_buttons,
                    released_buttons: self.released_buttons,
                };
                areas.set(i, (entity, state));
            }
            i += 1;
        }
    }
}

impl ClearOthersMutation {
    /// `after` is `before` with the mouse taken from every area whose entity
    /// is not `self.excluded`, and the excluded areas as they were.
    pub open spec fn applied(
        &self,
        before: Seq<(Entity, CaptureAreaState)>,
        after: Seq<(Entity, CaptureAreaState)>,
    ) -> bool {
        &&& after.len() == before.len()
        &&& forall|i: int|
            0 <= i < before.len() ==> if self.excluded == Some(before[i].0) {
                #[trigger] after[i] == before[i]
            } else {
                after[i].0 == before[i].0 && is_cleared(after[i].1)
            }
    }

    /// Takes the mouse from every area whose entity is not `self.excluded`.
    pub fn apply(&self, areas: &mut Vec<(Entity, CaptureAreaState)>)
        ensures
            self.applied(old(areas)@, final(areas)@),
    {
        let n = areas.len();
        let mut i: usize = 0;
        while i < n
            invariant
                n == old(areas)@.len(),
                areas@.len() == n,
                i <= n,
                forall|k: int|
                    0 <= k < n ==> if k >= i || self.excluded == Some(old(areas)@[k].0) {
                        #[trigger] areas@[k] == old(areas)@[k]
                    } else {
                        areas@[k].0 == old(areas)@[k].0 && is_cleared(areas@[k].1)
                    },
            decreases n - i,
        {
            let entity = areas[i].0;
            let keep = match self.excluded {
                Some(excluded) => entity == excluded,
                None => false,
            };
            if !keep {
                let state = CaptureAreaState {
                    is_hovered: false,
                    down_buttons: [false; 5],
                    clicked_buttons: [false; 5],
                    released_buttons: [false; 5],
                };
                areas.set(i, (entity, state));
            }
            i += 1;
        }
    }
}

/// After a frame's mutations (the capture, then the clearing of the other
/// areas) exactly the areas of the capturing entity hold the mouse, with the
/// frame's button flags; every other area is cleared.
pub proof fn lemma_capture_then_clear_hovers_only_target(
    m: MouseCaptureMutation,
    s0: Seq<(Entity, CaptureAreaState)>,
    s1: Seq<(Entity, CaptureAreaState)>,
    s2: Seq<(Entity, CaptureAreaState)>,
)
    requires
        m.applied(s0, s1),
        (ClearOthersMutation { excluded: Some(m.area) }).applied(s1, s2),
    ensures
        s2.len() == s0.len(),
        forall|i: int|
            0 <= i < s2.len() ==> (#[trigger] s2[i]).0 == s0[i].0 && (s2[i].1.is_hovered <==> s2[i].0
                == m.area),
        forall|i: int| 0 <= i < s2.len() && s2[i].0 == m.area ==> #[trigger] s2[i].1 == m.captured_state(),
{
    assert forall|i: int| 0 <= i < s2.len() implies (#[trigger] s2[i]).0 == s0[i].0 && (
    s2[i].1.is_hovered <==> s2[i].0 == m.area) by {
        assert(s1[i] == if s0[i].0 == m.area {
            (s0[i].0, m.captured_state())
        } else {
            s0[i]
        });
        if s1[i].0 != m.area {
            assert(is_cleared(s2[i].1));
        }
    }
    assert forall|i: int| 0 <= i < s2.len() && s2[i].0 == m.area implies #[trigger] s2[i].1
        == m.captured_state() by {
        assert(s1[i] == if s0[i].0 == m.area {
            (s0[i].0, m.captured_state())
        } else {
            s0[i]
        });
        if s1[i].0 != m.area {
            assert(is_cleared(s2[i].1));
        }
    }
}

/// When no area lies under the mouse, every area is cleared.
pub proof fn lemma_clear_all(
    s0: Seq<(Entity, CaptureAreaState)>,
    s1: Seq<(Entity, CaptureAreaState)>,
)
    requires
        (ClearOthersMutation { excluded: None }).applied(s0, s1),
    ensures
        forall|i: int| 0 <= i < s1.len() ==> #[trigger] is_cleared(s1[i].1) && !s1[i].1.is_hovered,
{
    assert forall|i: int| 0 <= i < s1.len() implies #[trigger] is_cleared(s1[i].1) && !s1[i].1.is_hovered by {
        assert(None::<Entity> != Some(s0[i].0));
    }
}

/// A button is down when it ended the frame down.
pub open spec fn is_down(b: GameButtonState) -> bool {
    b.ended_down
}

/// A button was clicked when it ended the frame down after changing.
pub open spec fn is_clicked(b: GameButtonState) -> bool {
    b.ended_down && b.half_transition_count > 0
}

/// A button was released when it ended the frame up after changing.
pub open spec fn is_released(b: GameButtonState) -> bool {
    !b.ended_down && b.half_transition_count > 0
}

/// The down, clicked and released flags of the five mouse buttons.
pub fn mouse_button_flags(buttons: &[GameButtonState; 5]) -> (r: ([bool; 5], [bool; 5], [bool; 5]))
    ensures
        forall|i: int|
            0 <= i < 5 ==> {
                &&& r.0@[i] == is_down(#[trigger] buttons@[i])
                &&& r.1@[i] == is_clicked(buttons@[i])
                &&& r.2@[i] == is_released(buttons@[i])
            },
{
    let mut down = [false; 5];
    let mut clicked = [false; 5];
    let mut released = [false; 5];
    let mut i: usize = 0;
    while i < 5
        invariant
            i <= 5,
            forall|k: int|
                0 <= k < i ==> {
                    &&& down@[k] == is_down(#[trigger] buttons@[k])
                    &&& clicked@[k] == is_clicked(buttons@[k])
                    &&& released@[k] == is_released(buttons@[k])
                },
        decreases 5 - i,
    {
        let b = buttons[i];
        down[i] = b.ended_down;
        clicked[i] = b.ended_down && b.half_transition_count > 0;
        released[i] = !b.ended_down && b.half_transition_count > 0;
        i += 1;
    }
    (down, clicked, released)
}

/// The hit flags of every layer.
pub open spec fn hit_rows(hits: Seq<Vec<bool>>) -> Seq<Seq<bool>> {
    hits.map_values(|h: Vec<bool>| h@)
}

/// Some area of the layer is under the mouse.
pub open spec fn has_hit(hits: Seq<bool>) -> bool {
    exists|a: int| 0 <= a < hits.len() && hits[a]
}

/// Area `a` is the first of its layer under the mouse.
pub open spec fn is_first_hit(hits: Seq<bool>, a: int) -> bool {
    &&& 0 <= a < hits.len()
    &&& hits[a]
    &&& forall|b: int| 0 <= b < a ==> !hits[b]
}

/// Layer `l` is asked before layer `m`: by higher sort index, and among
/// equal sort indices by earlier position.
pub open spec fn asked_before(layers: Seq<MouseCaptureLayer>, l: int, m: int) -> bool {
    layers[l].sort_index > layers[m].sort_index || (layers[l].sort_index == layers[m].sort_index
        && l < m)
}

/// Area `a` of layer `l` captures the mouse: it is the first area under the
/// mouse in its layer, and its layer is asked before every other layer with
/// an area under the mouse.
pub open spec fn captures(layers: Seq<MouseCaptureLayer>, hits: Seq<Seq<bool>>, l: int, a: int) -> bool {
    &&& 0 <= l < layers.len()
    &&& is_first_hit(hits[l], a)
    &&& forall|m: int|
        0 <= m < layers.len() && m != l && has_hit(#[trigger] hits[m]) ==> asked_before(layers, l, m)
}

/// At most one area captures the mouse: the layers are asked in a strict
/// order and only the first area of a layer under the mouse counts.
pub proof fn lemma_capture_unique(
    layers: Seq<MouseCaptureLayer>,
    hits: Seq<Seq<bool>>,
    l1: int,
    a1: int,
    l2: int,
    a2: int,
)
    requires
        captures(layers, hits, l1, a1),
        captures(layers, hits, l2, a2),
    ensures
        l1 == l2,
        a1 == a2,
{
    if l1 != l2 {
        assert(has_hit(hits[l2]));
        assert(has_hit(hits[l1]));
    }
}

/// The mutations of a frame of mouse capture. `hits[l][a]` tells whether
/// area `a` of layer `l` lies under the mouse. The capturing area gets the
/// mouse and the button flags, and every other area loses it; when no area
/// lies under the mouse, every area loses it.
pub fn mouse_capture_decision(
    layers: &Vec<MouseCaptureLayer>,
    hits: &Vec<Vec<bool>>,
    buttons: &[GameButtonState; 5],
) -> (r: (Option<MouseCaptureMutation>, ClearOthersMutation))
    requires
        hits@.len() == layers@.len(),
        forall|l: int|
            0 <= l < layers@.len() ==> (#[trigger] hits@[l])@.len() == layers@[l].capture_areas@.len(),
    ensures
        r.0 is None <==> forall|l: int| 0 <= l < layers@.len() ==> !has_hit(#[trigger] hits@[l]@),
        r.0 is None ==> r.1.excluded is None,
        r.0 matches Some(m) ==> {
            &&& exists|l: int, a: int|
                #[trigger] captures(layers@, hit_rows(hits@), l, a)
                    && m.area == layers@[l].capture_areas@[a]
            &&& r.1.excluded == Some(m.area)
            &&& forall|i: int|
                0 <= i < 5 ==> {
                    &&& m.down_buttons@[i] == is_down(#[trigger] buttons@[i])
                    &&& m.clicked_buttons@[i] == is_clicked(buttons@[i])
                    &&& m.released_buttons@[i] == is_released(buttons@[i])
                }
        },
{
    let ghost hv = hit_rows(hits@);
    let mut best: Option<(usize, usize)> = None;
    let n = layers.len();
    let mut l: usize = 0;
    while l < n
        invariant
            n == layers@.len(),
            hits@.len() == n,
            hv == hit_rows(hits@),
            forall|k: int|
                0 <= k < n ==> (#[trigger] hits@[k])@.len() == layers@[k].capture_areas@.len(),
            l <= n,
            best is None ==> forall|m: int| 0 <= m < l ==> !has_hit(#[trigger] hv[m]),
            best matches Some((bl, ba)) ==> {
                &&& bl < l
                &&& is_first_hit(hv[bl as int], ba as int)
                &&& forall|m: int|
                    0 <= m < l && m != bl && has_hit(#[trigger] hv[m]) ==> asked_before(
                        layers@,
                        bl as int,
                        m,
                    )
            },
        decreases n - l,
    {
        let row = &hits[l];
        let len = row.len();
        let mut a: usize = 0;
        while a < len && !row[a]
            invariant
                len == row@.len(),
                a <= len,
                forall|b: int| 0 <= b < a ==> !row@[b],
            decreases len - a,
        {
            a += 1;
        }
        assert(hv[l as int] == row@);
        if a < len {
            let replace = match best {
                None => true,
                Some((bl, _)) => layers[l].sort_index > layers[bl].sort_index,
            };
            if replace {
                best = Some((l, a));
            }
        } else {
            assert(!has_hit(hv[l as int]));
        }
        l += 1;
    }
    match best {
        None => {
            assert forall|k: int| 0 <= k < layers@.len() implies !has_hit(#[trigger] hits@[k]@) by {
                assert(hv[k] == hits@[k]@);
            }
            (None, ClearOthersMutation { excluded: None })
        },
        Some((bl, ba)) => {
            let (down_buttons, clicked_buttons, released_buttons) = mouse_button_flags(buttons);
            let area = layers[bl].capture_areas[ba];
            assert(captures(layers@, hv, bl as int, ba as int));
            assert(has_hit(hits@[bl as int]@)) by {
                assert(hv[bl as int] == hits@[bl as int]@);
            }
            (
                Some(MouseCaptureMutation { area, down_buttons, clicked_buttons, released_buttons }),
                ClearOthersMutation { excluded: Some(area) },
            )
        },
    }
}

} // verus!
