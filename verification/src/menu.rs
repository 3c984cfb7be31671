//! Menus: a map of buttons, moved between with the menu actions or the
//! mouse, whose actions open other scenes.
use vstd::prelude::*;
use vstd::std_specs::convert::FromSpec;

use crate::cursor::Cursor;
use crate::geometry::{Point, Rect, Subpixels, SUBPIXELS};
use crate::rendercontext::{to_pixels, RenderContext, RenderLayer, SpriteBatchEntry};
use crate::tilemap::WORLD;
use crate::utils::Color;
use crate::inputmanager::InputSnapshot;
use crate::properties::opt_text;
use crate::scene::{scene_view, SceneKind, SceneResult};
use crate::soundmanager::{Sound, SoundManager};
use crate::sprite::{Sprite, SpriteSheet};
use crate::switchstate::SwitchState;
use crate::text::{same_text, strip_prefix_text, after_prefix_text};
use crate::tilemap::{rect_in_world, TileMap};
use crate::uibutton::{ui_step, UiButton, UiButtonState};

verus! {

/// A menu screen.
pub struct Menu {
    pub reload_path: Option<String>,
    pub cursor: Cursor,
    pub tilemap: TileMap,
    pub buttons: Vec<UiButton>,
    pub horizontal_button_order: Vec<usize>,
    pub vertical_button_order: Vec<usize>,
    pub selected: usize,
    pub switches: SwitchState,
}

/// Which of the two orders of the buttons to step through.
#[derive(Debug, Clone, Copy, PartialEq, Eq, Structural)]
pub enum ButtonOrderDirection {
    Vertical,
    Horizontal,
}

/// Whether button `a` comes before button `b` in an order by `keys`:
/// by the first key, then the second, then by index.
pub open spec fn comes_before(keys: Seq<(i32, i32)>, a: int, b: int) -> bool {
    ||| keys[a].0 < keys[b].0
    ||| keys[a].0 == keys[b].0 && keys[a].1 < keys[b].1
    ||| keys[a].0 == keys[b].0 && keys[a].1 == keys[b].1 && a < b
}

/// Whether `order` lists each of the `n` buttons once, ordered by `keys`.
pub open spec fn is_order(keys: Seq<(i32, i32)>, order: Seq<usize>) -> bool {
    &&& order.len() == keys.len()
    &&& forall|q: int| 0 <= q < order.len() ==> #[trigger] order[q] < keys.len()
    &&& forall|p: int, q: int| 0 <= p < q < order.len() ==> comes_before(keys, order[p] as int, order[q] as int)
    &&& forall|j: int| 0 <= j < keys.len() ==> #[trigger] listed(order, j)
}

/// Whether `j` is in `order`.
pub open spec fn listed(order: Seq<usize>, j: int) -> bool {
    exists|q: int| 0 <= q < order.len() && order[q] == j
}

/// Whether key `a` is less than key `b`, by first and then second part.
fn key_less(a: (i32, i32), b: (i32, i32)) -> (r: bool)
    ensures
        r == (a.0 < b.0 || (a.0 == b.0 && a.1 < b.1)),
{
    a.0 < b.0 || (a.0 == b.0 && a.1 < b.1)
}

/// The buttons in the order of `keys`: a stable sort of their indices.
pub fn sorted_order(keys: &Vec<(i32, i32)>) -> (r: Vec<usize>)
    ensures
        is_order(keys@, r@),
{
    let n = keys.len();
    let mut r: Vec<usize> = Vec::new();
    let mut i: usize = 0;
    while i < n
        invariant
            n == keys@.len(),
            i <= n,
            r@.len() == i,
            forall|q: int| 0 <= q < r@.len() ==> #[trigger] r@[q] < i,
            forall|p: int, q: int| 0 <= p < q < r@.len() ==> comes_before(keys@, r@[p] as int, r@[q] as int),
            forall|j: int| 0 <= j < i ==> #[trigger] listed(r@, j),
        decreases n - i,
    {
        // Find where the new index goes: before the first that it comes before.
        let mut p: usize = 0;
        while p < r.len() && !key_less(keys[i], keys[r[p]])
            invariant
                n == keys@.len(),
                i < n,
                p <= r@.len(),
                r@.len() == i,
                forall|q: int| 0 <= q < r@.len() ==> #[trigger] r@[q] < i,
                forall|q: int| 0 <= q < p ==> comes_before(keys@, #[trigger] r@[q] as int, i as int),
            decreases r@.len() - p,
        {
            p = p + 1;
        }
        let ghost old_r = r@;
        proof {
            assert forall|q: int| p <= q < old_r.len() implies comes_before(keys@, i as int, #[trigger] old_r[q] as int) by {
                if q == p {
                } else {
                    assert(comes_before(keys@, old_r[p as int] as int, old_r[q] as int));
                }
            }
        }
        r.insert(p, i);
        proof {
            assert forall|q: int| 0 <= q < r@.len() implies #[trigger] r@[q] < i + 1 by {
                if q < p {
                    assert(r@[q] == old_r[q]);
                } else if q > p {
                    assert(r@[q] == old_r[q - 1]);
                }
            }
            assert forall|a: int, b: int| 0 <= a < b < r@.len() implies comes_before(keys@, r@[a] as int, r@[b] as int) by {
                if b < p {
                    assert(r@[a] == old_r[a] && r@[b] == old_r[b]);
                } else if b == p {
                    assert(r@[a] == old_r[a]);
                } else if a < p {
                    assert(r@[a] == old_r[a] && r@[b] == old_r[b - 1]);
                    let x = old_r[a] as int;
                    let y = old_r[b - 1] as int;
                    assert(comes_before(keys@, x, i as int));
                    assert(comes_before(keys@, i as int, y));
                } else if a == p {
                    assert(r@[b] == old_r[b - 1]);
                } else {
                    assert(r@[a] == old_r[a - 1] && r@[b] == old_r[b - 1]);
                }
            }
            assert forall|j: int| 0 <= j < i + 1 implies #[trigger] listed(r@, j) by {
                if j == i {
                    assert(r@[p as int] == i);
                } else {
                    assert(listed(old_r, j));
                    let q0 = choose|q: int| 0 <= q < old_r.len() && old_r[q] == j;
                    if q0 < p {
                        assert(r@[q0] == j);
                    } else {
                        assert(r@[q0 + 1] == j);
                    }
                }
            }
        }
        i = i + 1;
    }
    r
}

/// Where `x` stands in `order`.
pub open spec fn pos_in(order: Seq<usize>, x: usize) -> int {
    choose|q: int| 0 <= q < order.len() && order[q] == x
}

/// In an order, each button stands in one place.
proof fn lemma_pos_in(keys: Seq<(i32, i32)>, order: Seq<usize>, q: int)
    requires
        is_order(keys, order),
        0 <= q < order.len(),
    ensures
        pos_in(order, order[q]) == q,
{
    let p = pos_in(order, order[q]);
    if p < q {
        assert(comes_before(keys, order[p] as int, order[q] as int));
    } else if p > q {
        assert(comes_before(keys, order[q] as int, order[p] as int));
    }
}

/// The position of the selected button in an order and the button `delta`
/// places further, going round.
pub open spec fn stepped(order: Seq<usize>, pos: int, delta: int) -> usize {
    order[(pos + order.len() + delta) % (order.len() as int)]
}

/// Moving the selection by one goes to the neighbouring button in the
/// order, going round: one place on from the selected button (to the first
/// after the last), one place back (to the last before the first), or
/// nowhere.
pub proof fn selection_steps_to_neighbour(order: Seq<usize>, pos: int)
    requires
        0 <= pos < order.len(),
    ensures
        stepped(order, pos, 1) == if pos + 1 < order.len() { order[pos + 1] } else { order[0] },
        stepped(order, pos, -1) == if pos > 0 { order[pos - 1] } else { order[order.len() - 1] },
        stepped(order, pos, 0) == order[pos],
{
    let n = order.len() as int;
    assert((pos + n + 1) % n == if pos + 1 < n { pos + 1 } else { 0 }) by (nonlinear_arith)
        requires
            0 <= pos < n;
    assert((pos + n - 1) % n == if pos > 0 { pos - 1 } else { n - 1 }) by (nonlinear_arith)
        requires
            0 <= pos < n;
    assert((pos + n + 0) % n == pos) by (nonlinear_arith)
        requires
            0 <= pos < n;
}

/// The result that a button's action asks for: `levelselect:`, `level:` or
/// `menu:` and a path open that scene, `pop` and `pop2` close one or two
/// scenes, and `reload` starts the menu's level over, if it has one; any
/// other action does nothing.
pub open spec fn action_result(action: Seq<char>, reload: Option<Seq<char>>) -> Option<(SceneKind, Seq<char>)> {
    if let Some(p) = after_prefix_text(action, "levelselect:"@) {
        Some((SceneKind::PushLevelSelect, p))
    } else if let Some(p) = after_prefix_text(action, "level:"@) {
        Some((SceneKind::PushLevel, p))
    } else if let Some(p) = after_prefix_text(action, "menu:"@) {
        Some((SceneKind::PushMenu, p))
    } else if action == "pop"@ {
        Some((SceneKind::Pop, Seq::empty()))
    } else if action == "pop2"@ {
        Some((SceneKind::PopTwo, Seq::empty()))
    } else if action == "reload"@ {
        match reload {
            Some(p) => Some((SceneKind::ReloadLevel, p)),
            None => None,
        }
    } else {
        None
    }
}

/// The scene result for a button's action, if the action asks for one.
pub fn result_of_action(action: &str, reload_path: &Option<String>) -> (r: Option<SceneResult>)
    ensures
        match action_result(action@, opt_text(*reload_path)) {
            Some(v) => r matches Some(x) && scene_view(x) == v,
            None => r is None,
        },
{
    if let Some(path) = strip_prefix_text(action, "levelselect:") {
        Some(SceneResult::PushLevelSelect { path: path.to_owned() })
    } else if let Some(path) = strip_prefix_text(action, "level:") {
        Some(SceneResult::PushLevel { path: path.to_owned() })
    } else if let Some(path) = strip_prefix_text(action, "menu:") {
        Some(SceneResult::PushMenu { path: path.to_owned() })
    } else if same_text(action, "pop") {
        Some(SceneResult::Pop)
    } else if same_text(action, "pop2") {
        Some(SceneResult::PopTwo)
    } else if same_text(action, "reload") {
        match reload_path {
            Some(p) => Some(SceneResult::ReloadLevel { path: p.clone() }),
            None => None,
        }
    } else {
        None
    }
}

impl Menu {
    /// Whether the buttons and orders fit together: every order lists each
    /// button once, the selected button is one of them, and the buttons are
    /// within the world's bounds.
    pub open spec fn wf(&self) -> bool {
        &&& self.buttons@.len() > 0
        &&& self.buttons@.len() <= 0x1000_0000
        &&& self.selected < self.buttons@.len()
        &&& is_order(Menu::keys(self.buttons@, ButtonOrderDirection::Horizontal), self.horizontal_button_order@)
        &&& is_order(Menu::keys(self.buttons@, ButtonOrderDirection::Vertical), self.vertical_button_order@)
        &&& forall|i: int| 0 <= i < self.buttons@.len() ==> rect_in_world(#[trigger] self.buttons@[i].position)
    }

    /// The keys that order the buttons: by row, then column, going across;
    /// by column, then row, going down.
    pub open spec fn keys(buttons: Seq<UiButton>, direction: ButtonOrderDirection) -> Seq<(i32, i32)> {
        Seq::new(
            buttons.len(),
            |i: int|
                match direction {
                    ButtonOrderDirection::Horizontal => (buttons[i].position.y.0, buttons[i].position.x.0),
                    ButtonOrderDirection::Vertical => (buttons[i].position.x.0, buttons[i].position.y.0),
                },
        )
    }

    /// The order to step through in a direction.
    pub open spec fn order(&self, direction: ButtonOrderDirection) -> Seq<usize> {
        match direction {
            ButtonOrderDirection::Horizontal => self.horizontal_button_order@,
            ButtonOrderDirection::Vertical => self.vertical_button_order@,
        }
    }
}

/// The map objects that are menu buttons, in order.
pub open spec fn ui_objects(objs: Seq<crate::tilemap::MapObject>) -> Seq<crate::tilemap::MapObject>
    decreases objs.len(),
{
    if objs.len() == 0 {
        Seq::empty()
    } else if objs.last().properties.uibutton is Some {
        ui_objects(objs.drop_last()).push(objs.last())
    } else {
        ui_objects(objs.drop_last())
    }
}

/// Whether `b` is the button that map object `o` describes, on a map with
/// tiles of the given size, drawn from `sprite`.
pub open spec fn button_of(b: UiButton, o: crate::tilemap::MapObject, tw: crate::geometry::Pixels, th: crate::geometry::Pixels, sprite: Sprite) -> bool {
    &&& b.position.x.0 == o.position.x.0 * crate::geometry::SUBPIXELS
    &&& b.position.y.0 == o.position.y.0 * crate::geometry::SUBPIXELS
    &&& b.position.w.0 == o.position.w.0 * crate::geometry::SUBPIXELS
    &&& b.position.h.0 == o.position.h.0 * crate::geometry::SUBPIXELS
    &&& b.state == UiButtonState::Normal
    &&& b.label@ == o.properties.label@
    &&& opt_text(b.action) == opt_text(o.properties.uibutton)
    &&& b.tile_width == tw
    &&& b.tile_height == th
    &&& b.sprite == (SpriteSheet { sprite, sprite_width: tw, sprite_height: th })
}

/// Whether the button objects of a menu's map fit the world when scaled
/// to subpixels, and there is at least one.
pub open spec fn menu_objects_fit(objs: Seq<crate::tilemap::MapObject>) -> bool {
    &&& ui_objects(objs).len() > 0
    &&& objs.len() <= 0x1000_0000
    &&& forall|i: int| 0 <= i < objs.len() && (#[trigger] objs[i]).properties.uibutton is Some ==> {
        let p = objs[i].position;
        &&& crate::tilemap::in_world(p.x.0 * crate::geometry::SUBPIXELS)
        &&& crate::tilemap::in_world(p.y.0 * crate::geometry::SUBPIXELS)
        &&& crate::tilemap::in_world(p.w.0 * crate::geometry::SUBPIXELS)
        &&& crate::tilemap::in_world(p.h.0 * crate::geometry::SUBPIXELS)
    }
}

/// Whether the objects of a menu's map can be made into a menu, as
/// `Menu::new` needs.
pub fn menu_objects_check(objs: &Vec<crate::tilemap::MapObject>) -> (r: bool)
    ensures
        r == menu_objects_fit(objs@),
{
    if objs.len() > 0x1000_0000 {
        return false;
    }
    let mut count: usize = 0;
    let mut i: usize = 0;
    let w: i64 = crate::tilemap::WORLD as i64;
    proof {
        assert(objs@.take(0) =~= Seq::<crate::tilemap::MapObject>::empty());
    }
    while i < objs.len()
        invariant
            i <= objs@.len() <= 0x1000_0000,
            w == crate::tilemap::WORLD,
            count == ui_objects(objs@.take(i as int)).len(),
            count <= i,
            forall|j: int| 0 <= j < i && (#[trigger] objs@[j]).properties.uibutton is Some ==> {
                let p = objs@[j].position;
                &&& crate::tilemap::in_world(p.x.0 * crate::geometry::SUBPIXELS)
                &&& crate::tilemap::in_world(p.y.0 * crate::geometry::SUBPIXELS)
                &&& crate::tilemap::in_world(p.w.0 * crate::geometry::SUBPIXELS)
                &&& crate::tilemap::in_world(p.h.0 * crate::geometry::SUBPIXELS)
            },
        decreases objs.len() - i,
    {
        let o = &objs[i];
        proof {
            assert(objs@.take(i + 1).drop_last() =~= objs@.take(i as int));
            assert(objs@.take(i + 1).last() == objs@[i as int]);
        }
        if o.properties.uibutton.is_some() {
            let p = o.position;
            let s: i64 = crate::geometry::SUBPIXELS as i64;
            let inw = |v: i64| -> (b: bool)
                ensures
                    b == (-w <= v && v <= w),
            {
                -w <= v && v <= w
            };
            if !(inw(p.x.0 as i64 * s) && inw(p.y.0 as i64 * s) && inw(p.w.0 as i64 * s) && inw(p.h.0 as i64 * s)) {
                return false;
            }
            count = count + 1;
        }
        i = i + 1;
    }
    proof {
        assert(objs@.take(i as int) =~= objs@);
    }
    count > 0
}

proof fn lemma_ui_objects_len(objs: Seq<crate::tilemap::MapObject>)
    ensures
        ui_objects(objs).len() <= objs.len(),
    decreases objs.len(),
{
    if objs.len() > 0 {
        lemma_ui_objects_len(objs.drop_last());
    }
}

impl Menu {
    /// The menu that a map describes: a button for each of its button
    /// objects, the first in the downward order selected. `reload_path` is
    /// the level that a `reload` button starts over.
    pub fn new(tilemap: TileMap, reload_path: Option<String>, cursor_sprite: Sprite, button_sprite: Sprite) -> (r: Menu)
        requires
            menu_objects_fit(tilemap.objects@),
        ensures
            r.wf(),
            r.buttons@.len() == ui_objects(tilemap.objects@).len(),
            forall|i: int| 0 <= i < r.buttons@.len() ==> button_of(
                #[trigger] r.buttons@[i],
                ui_objects(tilemap.objects@)[i],
                tilemap.tilewidth,
                tilemap.tileheight,
                button_sprite,
            ),
            r.selected == r.vertical_button_order@[0],
            opt_text(r.reload_path) == opt_text(reload_path),
            r.cursor.sprite == cursor_sprite,
            r.cursor.position.x.0 == 0 && r.cursor.position.y.0 == 0,
            r.switches@ == Set::<Seq<char>>::empty(),
            r.tilemap == tilemap,
    {
        let cursor = Cursor::new(cursor_sprite);
        let mut buttons: Vec<UiButton> = Vec::new();
        let tw = tilemap.tilewidth;
        let th = tilemap.tileheight;
        let n = tilemap.objects.len();
        let mut k: usize = 0;
        while k < n
            invariant
                n == tilemap.objects@.len(),
                k <= n,
                tw == tilemap.tilewidth,
                th == tilemap.tileheight,
                menu_objects_fit(tilemap.objects@),
                buttons@.len() == ui_objects(tilemap.objects@.take(k as int)).len(),
                forall|i: int| 0 <= i < buttons@.len() ==> button_of(
                    #[trigger] buttons@[i],
                    ui_objects(tilemap.objects@.take(k as int))[i],
                    tw,
                    th,
                    button_sprite,
                ),
                forall|i: int| 0 <= i < buttons@.len() ==> rect_in_world(#[trigger] buttons@[i].position),
            decreases n - k,
        {
            let obj = &tilemap.objects[k];
            proof {
                assert(tilemap.objects@.take(k + 1).drop_last() =~= tilemap.objects@.take(k as int));
                assert(tilemap.objects@.take(k + 1).last() == tilemap.objects@[k as int]);
            }
            if obj.properties.uibutton.is_some() {
                proof {
                    assert(tilemap.objects@[k as int].properties.uibutton is Some);
                }
                let b = UiButton::new(obj, tw, th, SpriteSheet::new(button_sprite, tw, th));
                buttons.push(b);
            }
            k = k + 1;
        }
        proof {
            assert(tilemap.objects@.take(n as int) =~= tilemap.objects@);
            lemma_ui_objects_len(tilemap.objects@);
        }
        let mut horizontal_keys: Vec<(i32, i32)> = Vec::new();
        let mut vertical_keys: Vec<(i32, i32)> = Vec::new();
        let mut i: usize = 0;
        while i < buttons.len()
            invariant
                i <= buttons@.len(),
                horizontal_keys@ == Menu::keys(buttons@, ButtonOrderDirection::Horizontal).take(i as int),
                vertical_keys@ == Menu::keys(buttons@, ButtonOrderDirection::Vertical).take(i as int),
            decreases buttons@.len() - i,
        {
            let p = buttons[i].position;
            horizontal_keys.push((p.y.0, p.x.0));
            vertical_keys.push((p.x.0, p.y.0));
            proof {
                assert(horizontal_keys@ =~= Menu::keys(buttons@, ButtonOrderDirection::Horizontal).take(i + 1));
                assert(vertical_keys@ =~= Menu::keys(buttons@, ButtonOrderDirection::Vertical).take(i + 1));
            }
            i = i + 1;
        }
        proof {
            assert(horizontal_keys@ =~= Menu::keys(buttons@, ButtonOrderDirection::Horizontal));
            assert(vertical_keys@ =~= Menu::keys(buttons@, ButtonOrderDirection::Vertical));
        }
        let horizontal_button_order = sorted_order(&horizontal_keys);
        let vertical_button_order = sorted_order(&vertical_keys);
        let selected = vertical_button_order[0];
        Menu {
            reload_path,
            cursor,
            tilemap,
            buttons,
            horizontal_button_order,
            vertical_button_order,
            selected,
            switches: SwitchState::new(),
        }
    }

    /// A menu that reloads nothing.
    pub fn new_menu(tilemap: TileMap, cursor_sprite: Sprite, button_sprite: Sprite) -> (r: Menu)
        requires
            menu_objects_fit(tilemap.objects@),
        ensures
            r.wf(),
            r.reload_path is None,
            r.buttons@.len() == ui_objects(tilemap.objects@).len(),
            r.selected == r.vertical_button_order@[0],
    {
        Menu::new(tilemap, None, cursor_sprite, button_sprite)
    }

    /// The menu shown when the player dies in the level at `level_path`.
    pub fn new_death_screen(level_path: String, tilemap: TileMap, cursor_sprite: Sprite, button_sprite: Sprite) -> (r: Menu)
        requires
            menu_objects_fit(tilemap.objects@),
        ensures
            r.wf(),
            opt_text(r.reload_path) == Some(level_path@),
            r.buttons@.len() == ui_objects(tilemap.objects@).len(),
            r.selected == r.vertical_button_order@[0],
    {
        Menu::new(tilemap, Some(level_path), cursor_sprite, button_sprite)
    }

    /// The menu shown when the level at `level_path` is paused.
    pub fn new_pause_screen(level_path: String, tilemap: TileMap, cursor_sprite: Sprite, button_sprite: Sprite) -> (r: Menu)
        requires
            menu_objects_fit(tilemap.objects@),
        ensures
            r.wf(),
            opt_text(r.reload_path) == Some(level_path@),
            r.buttons@.len() == ui_objects(tilemap.objects@).len(),
            r.selected == r.vertical_button_order@[0],
    {
        Menu::new(tilemap, Some(level_path), cursor_sprite, button_sprite)
    }

    /// Selects the button `delta` places from the selected one in an order,
    /// going round.
    pub fn next_button(&mut self, delta: i32, direction: ButtonOrderDirection)
        requires
            old(self).wf(),
            -1 <= delta <= 1,
        ensures
            final(self).wf(),
            final(self).selected == stepped(
                old(self).order(direction),
                pos_in(old(self).order(direction), old(self).selected),
                delta as int,
            ),
            final(self).buttons == old(self).buttons,
            final(self).horizontal_button_order == old(self).horizontal_button_order,
            final(self).vertical_button_order == old(self).vertical_button_order,
            final(self).cursor == old(self).cursor,
            final(self).reload_path == old(self).reload_path,
            final(self).switches == old(self).switches,
            final(self).tilemap == old(self).tilemap,
    {
        let ghost keys = Menu::keys(self.buttons@, direction);
        let order: &Vec<usize> = match direction {
            ButtonOrderDirection::Horizontal => &self.horizontal_button_order,
            ButtonOrderDirection::Vertical => &self.vertical_button_order,
        };
        let len = order.len();
        proof {
            assert(is_order(keys, order@));
            assert(listed(order@, self.selected as int));
        }
        let mut pos: usize = 0;
        while pos < len && order[pos] != self.selected
            invariant
                len == order@.len(),
                pos <= len,
                forall|q: int| 0 <= q < pos ==> order@[q] != self.selected,
                listed(order@, self.selected as int),
            decreases len - pos,
        {
            pos = pos + 1;
        }
        if pos == len {
            // The selected button is in every order.
            proof {
                let q = choose|q: int| 0 <= q < order@.len() && order@[q] == self.selected;
                assert(order@[q] != self.selected);
            }
            return;
        }
        proof {
            assert(keys.len() == self.buttons@.len());
            assert(len >= 1);
        }
        let shifted: i32 = (pos + len) as i32 + delta;
        let new_pos: usize = (shifted as usize) % len;
        proof {
            assert(shifted as usize == pos + len + delta);
            assert(new_pos == (pos + len + delta) % (len as int));
        }
        let next = order[new_pos];
        self.selected = next;
        proof {
            assert(order@ == old(self).order(direction));
            assert(old(self).order(direction)[pos as int] == old(self).selected);
            lemma_pos_in(keys, order@, pos as int);
        }
    }
}

/// The mouse position in subpixels.
pub open spec fn mouse_of(inputs: InputSnapshot) -> crate::geometry::Point<Subpixels> {
    crate::geometry::Point::<Subpixels>::from_spec(inputs.mouse_position)
}

/// Whether a button is clicked in a frame.
pub open spec fn clicked_now(b: UiButton, selected: bool, inputs: InputSnapshot) -> bool {
    ui_step(b.state, selected, inputs, b.position.spec_contains(mouse_of(inputs))).1
}

/// What a button asks for in a frame, if anything.
pub open spec fn button_request(b: UiButton, selected: bool, inputs: InputSnapshot, reload: Option<Seq<char>>) -> Option<(SceneKind, Seq<char>)> {
    if clicked_now(b, selected, inputs) {
        match b.action {
            Some(a) => action_result(a@, reload),
            None => None,
        }
    } else {
        None
    }
}

/// The first button, from `i` on, that asks for something; the number of
/// buttons if none does.
pub open spec fn first_request(bs: Seq<UiButton>, selected: usize, inputs: InputSnapshot, reload: Option<Seq<char>>, i: int) -> int
    decreases bs.len() - i,
{
    if i >= bs.len() {
        bs.len() as int
    } else if button_request(bs[i], i == selected, inputs, reload) is Some {
        i
    } else {
        first_request(bs, selected, inputs, reload, i + 1)
    }
}

/// The clicks of the first `n` buttons in a frame.
pub open spec fn clicks(bs: Seq<UiButton>, selected: usize, inputs: InputSnapshot, n: int) -> Seq<crate::soundmanager::Sound>
    decreases n,
{
    if n <= 0 {
        Seq::empty()
    } else if clicked_now(bs[n - 1], n - 1 == selected, inputs) {
        clicks(bs, selected, inputs, n - 1).push(crate::soundmanager::Sound::Click)
    } else {
        clicks(bs, selected, inputs, n - 1)
    }
}

/// The selected button after the menu actions of a frame: down, up, left
/// and right, in that order.
pub open spec fn moved_selection(m: Menu, inputs: InputSnapshot) -> usize {
    let s0 = m.selected;
    let v = m.vertical_button_order@;
    let h = m.horizontal_button_order@;
    let s1 = if inputs.menu_down_clicked { stepped(v, pos_in(v, s0), 1) } else { s0 };
    let s2 = if inputs.menu_up_clicked { stepped(v, pos_in(v, s1), -1) } else { s1 };
    let s3 = if inputs.menu_left_clicked { stepped(h, pos_in(h, s2), -1) } else { s2 };
    if inputs.menu_right_clicked { stepped(h, pos_in(h, s3), 1) } else { s3 }
}

proof fn lemma_first_request_range(bs: Seq<UiButton>, selected: usize, inputs: InputSnapshot, reload: Option<Seq<char>>, i: int)
    requires
        0 <= i <= bs.len(),
    ensures
        i <= first_request(bs, selected, inputs, reload, i) <= bs.len(),
        first_request(bs, selected, inputs, reload, i) < bs.len() ==> button_request(
            bs[first_request(bs, selected, inputs, reload, i)],
            first_request(bs, selected, inputs, reload, i) == selected,
            inputs,
            reload,
        ) is Some,
        forall|j: int| i <= j < first_request(bs, selected, inputs, reload, i) ==> button_request(
            #[trigger] bs[j],
            j == selected,
            inputs,
            reload,
        ) is None,
    decreases bs.len() - i,
{
    if i < bs.len() && button_request(bs[i], i == selected, inputs, reload) is None {
        lemma_first_request_range(bs, selected, inputs, reload, i + 1);
    }
}

impl Menu {
    /// Runs one frame of the menu. Cancel closes it. Otherwise the menu
    /// actions move the selection, the cursor follows the mouse, and each
    /// button follows the inputs in turn until one asks for something,
    /// which the menu then asks for.
    pub fn update(&mut self, inputs: &InputSnapshot, sounds: &mut SoundManager) -> (r: SceneResult)
        requires
            old(self).wf(),
        ensures
            menu_update_fits(*old(self), *inputs, old(sounds)@, *final(self), final(sounds)@, r),
    {
        if inputs.cancel_clicked {
            return SceneResult::Pop;
        }
        if inputs.menu_down_clicked {
            self.next_button(1, ButtonOrderDirection::Vertical);
        }
        if inputs.menu_up_clicked {
            self.next_button(-1, ButtonOrderDirection::Vertical);
        }
        if inputs.menu_left_clicked {
            self.next_button(-1, ButtonOrderDirection::Horizontal);
        }
        if inputs.menu_right_clicked {
            self.next_button(1, ButtonOrderDirection::Horizontal);
        }
        self.cursor.update(inputs);
        let ghost bs = self.buttons@;
        let ghost sel = self.selected;
        let ghost reload = opt_text(self.reload_path);
        let ghost s0 = sounds@;
        proof {
            lemma_first_request_range(bs, sel, *inputs, reload, 0);
        }
        let ghost k = first_request(bs, sel, *inputs, reload, 0);
        let n = self.buttons.len();
        let mut i: usize = 0;
        while i < n
            invariant
                !inputs.cancel_clicked,
                bs == old(self).buttons@,
                s0 == old(sounds)@,
                reload == opt_text(old(self).reload_path),
                n == bs.len(),
                i <= n,
                i <= k,
                k == first_request(bs, sel, *inputs, reload, 0),
                k <= bs.len(),
                k < bs.len() ==> button_request(bs[k], k == sel, *inputs, reload) is Some,
                forall|j: int| 0 <= j < k ==> button_request(#[trigger] bs[j], j == sel, *inputs, reload) is None,
                self.selected == sel,
                reload == opt_text(self.reload_path),
                self.wf(),
                Menu::keys(bs, ButtonOrderDirection::Horizontal) == Menu::keys(self.buttons@, ButtonOrderDirection::Horizontal),
                Menu::keys(bs, ButtonOrderDirection::Vertical) == Menu::keys(self.buttons@, ButtonOrderDirection::Vertical),
                self.buttons@.len() == bs.len(),
                forall|j: int| 0 <= j < bs.len() ==> (#[trigger] self.buttons@[j]).position == bs[j].position && self.buttons@[j].action == bs[j].action,
                forall|j: int| 0 <= j < i ==> (#[trigger] self.buttons@[j]).state == ui_step(bs[j].state, j == sel, *inputs, bs[j].position.spec_contains(mouse_of(*inputs))).0,
                forall|j: int| i <= j < bs.len() ==> (#[trigger] self.buttons@[j]).state == bs[j].state,
                sounds@ == s0 + clicks(bs, sel, *inputs, i as int),
                self.cursor.position == mouse_of(*inputs),
                self.selected == moved_selection(*old(self), *inputs),
            decreases n - i,
        {
            let selected = i == self.selected;
            let mut button = self.buttons.remove(i);
            let ghost before = self.buttons@;
            let action = button.update(selected, inputs, sounds);
            self.buttons.insert(i, button);
            proof {
                assert forall|j: int| 0 <= j < bs.len() implies (#[trigger] self.buttons@[j]).position == bs[j].position && self.buttons@[j].action == bs[j].action by {
                    if j < i {
                        assert(self.buttons@[j] == before[j]);
                    } else if j > i {
                        assert(self.buttons@[j] == before[j - 1]);
                    }
                }
                assert forall|j: int| 0 <= j < i + 1 implies (#[trigger] self.buttons@[j]).state == ui_step(bs[j].state, j == sel, *inputs, bs[j].position.spec_contains(mouse_of(*inputs))).0 by {
                    if j < i {
                        assert(self.buttons@[j] == before[j]);
                    }
                }
                assert forall|j: int| i + 1 <= j < bs.len() implies (#[trigger] self.buttons@[j]).state == bs[j].state by {
                    assert(self.buttons@[j] == before[j - 1]);
                }
                assert(Menu::keys(self.buttons@, ButtonOrderDirection::Horizontal) =~= Menu::keys(bs, ButtonOrderDirection::Horizontal));
                assert(Menu::keys(self.buttons@, ButtonOrderDirection::Vertical) =~= Menu::keys(bs, ButtonOrderDirection::Vertical));
                if clicked_now(bs[i as int], i == sel, *inputs) {
                    assert(sounds@ =~= s0 + clicks(bs, sel, *inputs, i + 1));
                } else {
                    assert(sounds@ =~= s0 + clicks(bs, sel, *inputs, i + 1));
                }
            }
            if let Some(a) = action {
                let result = result_of_action(a.as_str(), &self.reload_path);
                if let Some(res) = result {
                    proof {
                        assert(i == k);
                    }
                    return res;
                }
            }
            proof {
                if i == k {
                    assert(button_request(bs[k], k == sel, *inputs, reload) is Some);
                }
            }
            i = i + 1;
        }
        SceneResult::Continue
    }
}

/// The draws of the buttons from `k0` up to `k1`, one after another.
pub open spec fn buttons_draws(bs: Seq<UiButton>, k: int) -> Seq<SpriteBatchEntry>
    decreases k,
{
    if k <= 0 {
        Seq::empty()
    } else {
        buttons_draws(bs, k - 1) + bs[k - 1].cell_draws()
    }
}

impl Menu {
    /// Whether the menu can be drawn on a screen of the given size.
    pub open spec fn drawable(&self, width: u32, height: u32) -> bool {
        &&& self.tilemap.drawable()
        &&& width * SUBPIXELS <= WORLD
        &&& height * SUBPIXELS <= WORLD
        &&& forall|i: int| 0 <= i < self.buttons@.len() ==> #[trigger] self.buttons@[i].draw_fits()
    }

    /// The purple that fills the world's layer under a menu on a screen of
    /// the given size.
    pub open spec fn fill_entry(width: u32, height: u32) -> SpriteBatchEntry {
        let area = Rect {
            x: Subpixels(0),
            y: Subpixels(0),
            w: Subpixels((width * SUBPIXELS) as i32),
            h: Subpixels((height * SUBPIXELS) as i32),
        };
        SpriteBatchEntry::FillRect { destination: to_pixels(area), color: Color { r: 0x33, g: 0, b: 0x33, a: 0xff } }
    }

    /// What the menu draws over the world on a screen of the given size in
    /// game frame `frame`: its map, its buttons and the cursor.
    pub open spec fn hud_draws(&self, width: u32, height: u32, frame: u64) -> Seq<SpriteBatchEntry> {
        let area = Rect {
            x: Subpixels(0),
            y: Subpixels(0),
            w: Subpixels((width * SUBPIXELS) as i32),
            h: Subpixels((height * SUBPIXELS) as i32),
        };
        let zero = Point { x: Subpixels(0), y: Subpixels(0) };
        let on = self.switches@;
        self.tilemap.background_draws(area, zero, on, frame) + self.tilemap.foreground_draws(area, zero, on, frame)
            + buttons_draws(self.buttons@, self.buttons@.len() as int) + seq![self.cursor.entry()]
    }

    /// Whether `c1` is the frame `c0` with the menu drawn: the purple fill
    /// on the world's layer, the menu's draws on the display's.
    pub open spec fn drawn(&self, c0: RenderContext, c1: RenderContext) -> bool {
        &&& c1.player_batch.entries@ == c0.player_batch.entries@.push(Menu::fill_entry(c0.width, c0.height))
        &&& c1.hud_batch.entries@ == c0.hud_batch.entries@ + self.hud_draws(c0.width, c0.height, c0.frame)
        &&& c1.player_batch.clear_color == c0.player_batch.clear_color
        &&& c1.hud_batch.clear_color == c0.hud_batch.clear_color
        &&& c1.width == c0.width
        &&& c1.height == c0.height
        &&& c1.frame == c0.frame
        &&& c1.lights == c0.lights
        &&& c1.is_dark == c0.is_dark
    }

    /// Draws the menu: the world's layer filled with purple, and over it the
    /// menu's map, its buttons and the cursor.
    pub fn draw(&self, context: &mut RenderContext)
        requires
            self.drawable(old(context).width, old(context).height),
        ensures
            self.drawn(*old(context), *final(context)),
    {
        let ghost c0 = *context;
        let area = context.logical_area_in_subpixels();
        let zero = Point::<Subpixels>::zero();
        let ghost hud0 = context.hud_batch.entries@;
        let ghost frame = context.frame;
        context.fill_rect(area, RenderLayer::Player, Color { r: 0x33, g: 0x00, b: 0x33, a: 0xff });
        self.tilemap.draw_background(context, RenderLayer::Hud, area, zero, &self.switches);
        self.tilemap.draw_foreground(context, RenderLayer::Hud, area, zero, &self.switches);
        let ghost after_map = context.hud_batch.entries@;
        let ghost world = context.player_batch;
        let mut i: usize = 0;
        while i < self.buttons.len()
            invariant
                i <= self.buttons@.len(),
                forall|j: int| 0 <= j < self.buttons@.len() ==> #[trigger] self.buttons@[j].draw_fits(),
                context.hud_batch.entries@ == after_map + buttons_draws(self.buttons@, i as int),
                context.player_batch == world,
                context.hud_batch.clear_color == c0.hud_batch.clear_color,
                context.width == c0.width,
                context.height == c0.height,
                context.frame == c0.frame,
                context.lights == c0.lights,
                context.is_dark == c0.is_dark,
            decreases self.buttons.len() - i,
        {
            self.buttons[i].draw(context, RenderLayer::Hud);
            proof {
                assert(after_map + buttons_draws(self.buttons@, i + 1) =~= after_map + buttons_draws(self.buttons@, i as int) + self.buttons@[i as int].cell_draws());
            }
            i = i + 1;
        }
        let ghost before_cursor = context.hud_batch.entries@;
        self.cursor.draw(context, RenderLayer::Hud);
        proof {
            assert(context.hud_batch.entries@ =~= before_cursor + seq![self.cursor.entry()]);
            assert(hud0 + self.tilemap.background_draws(area, zero, self.switches@, frame)
                + self.tilemap.foreground_draws(area, zero, self.switches@, frame) == after_map);
            assert(context.hud_batch.entries@ =~= hud0 + self.hud_draws(c0.width, c0.height, frame));
            assert(context.player_batch.entries@ =~= c0.player_batch.entries@.push(Menu::fill_entry(c0.width, c0.height)));
        }
    }
}

/// Whether the menu `m1`, the sounds `snd1` and the result `r` are what a
/// frame of menu `m0` with these inputs and sounds `snd0` gives.
pub open spec fn menu_update_fits(m0: Menu, inputs: InputSnapshot, snd0: Seq<Sound>, m1: Menu, snd1: Seq<Sound>, r: SceneResult) -> bool {
    &&& m1.wf()
    &&& inputs.cancel_clicked ==> r is Pop && snd1 == snd0 && m1.selected == m0.selected
                    && m1.buttons@ == m0.buttons@ && m1.cursor == m0.cursor
    &&& !inputs.cancel_clicked ==> ({
                    let sel = moved_selection(m0, inputs);
                    let bs = m0.buttons@;
                    let reload = opt_text(m0.reload_path);
                    let k = first_request(bs, sel, inputs, reload, 0);
                    &&& m1.selected == sel
                    &&& m1.cursor.position == mouse_of(inputs)
                    &&& m1.buttons@.len() == bs.len()
                    &&& forall|i: int| 0 <= i < bs.len() ==> {
                        let b0 = #[trigger] bs[i];
                        let b1 = m1.buttons@[i];
                        &&& b1.position == b0.position
                        &&& b1.action == b0.action
                        &&& b1.state == if i <= k {
                            ui_step(b0.state, i == sel, inputs, b0.position.spec_contains(mouse_of(inputs))).0
                        } else {
                            b0.state
                        }
                    }
                    &&& snd1 == snd0 + clicks(bs, sel, inputs, if k < bs.len() { k + 1 } else { k })
                    &&& k < bs.len() ==> Some(scene_view(r)) == button_request(bs[k], k == sel, inputs, reload)
                    &&& k == bs.len() ==> r is Continue
                })
}

} // verus!
