//! The frame host: the persistent editor state and the per-frame
//! decisions.
//!
//! The host owns the "is the editor shown" flag, the selected node, and
//! the rectangle of the window that shows the application's own output
//! while the editor is active.  Per frame it routes input events (toggling
//! the editor, remapping mouse coordinates into the application's
//! viewport, swallowing clicks on the editor chrome) and drives the two
//! panels: the detail panel, reached by searching the tree for the
//! selected identity, and the tree panel, rendered from the root value
//! under the fixed root identity.  The windowing backend performs the
//! drawing; everything decided here is verified.

use crate::tree::{dfs_spec, inspect_child_value, node_spec, node_value};
use crate::ui::{act_view, ops_view, Action, DisplayName, OpV, Ui, WidgetOp};
use crate::util::Vec2;
use crate::value::{value_wf, Value};
use vstd::prelude::*;

verus! {

broadcast use crate::ui::lemma_ops_view_push;

/// The identity of the tree root: a fixed constant, the seed of every
/// derived identity.
pub const ROOT_ID: u64 = 0;

/// A key of the keyboard, as far as the host's decisions need it.
#[derive(Clone, Copy, Debug, PartialEq, Eq)]
pub enum KeyCode {
    /// The key that, with control and shift held, toggles the editor.
    I,
    Other,
}

/// An input event of the windowing backend, reduced to the data the
/// host's decisions read.
#[derive(Clone, Copy, Debug, PartialEq, Eq)]
pub enum Event {
    Closed,
    Resized { width: u32, height: u32 },
    MouseButtonPressed { x: i32, y: i32 },
    MouseButtonReleased { x: i32, y: i32 },
    MouseMoved { x: i32, y: i32 },
    KeyPressed { code: KeyCode, ctrl: bool, shift: bool },
    /// No event, yet event polling should continue: the editor consumed
    /// the real event.
    Noop,
    Other,
}

/// The part of the window showing the application's own output while the
/// editor is active.
#[derive(Clone, Copy, Debug, PartialEq, Eq)]
pub struct TargetRect {
    pub left: i32,
    pub top: i32,
    pub width: i32,
    pub height: i32,
}

impl TargetRect {
    /// Whether a window position falls inside the rectangle.
    pub open spec fn spec_contains(&self, x: i32, y: i32) -> bool {
        self.left <= x < self.left + self.width && self.top <= y < self.top + self.height
    }
}

/// The bound the host keeps on window geometry; coordinate remapping
/// stays well inside 64-bit products under it.
pub const GEOMETRY_BOUND: i32 = 0x100000;

/// The persistent state of the frame host.
#[derive(Debug, PartialEq, Eq)]
pub struct InspectorHost {
    /// Whether the editor overlay is currently shown.
    pub is_editor_active: bool,
    /// The selected node of the tree, if any.
    pub active_node: Option<u64>,
    /// Where the application's output sits in the window while the editor
    /// is shown.
    pub target_rect: TargetRect,
    /// The window size, for mapping viewport positions back to
    /// application coordinates.
    pub window_width: i32,
    pub window_height: i32,
}

impl InspectorHost {
    /// Geometry stays positive and bounded.
    pub open spec fn wf(&self) -> bool {
        &&& 0 <= self.target_rect.left < GEOMETRY_BOUND
        &&& 0 <= self.target_rect.top < GEOMETRY_BOUND
        &&& 0 < self.target_rect.width < GEOMETRY_BOUND
        &&& 0 < self.target_rect.height < GEOMETRY_BOUND
        &&& 0 < self.window_width < GEOMETRY_BOUND
        &&& 0 < self.window_height < GEOMETRY_BOUND
    }

    /// A fresh host: editor hidden, nothing selected, the application
    /// output filling the whole window.
    pub fn new(window_width: i32, window_height: i32) -> (h: Self)
        requires
            0 < window_width < GEOMETRY_BOUND,
            0 < window_height < GEOMETRY_BOUND,
        ensures
            h.wf(),
            !h.is_editor_active,
            h.active_node is None,
            h.window_width == window_width,
            h.window_height == window_height,
    {
        InspectorHost {
            is_editor_active: false,
            active_node: None,
            target_rect: TargetRect { left: 0, top: 0, width: window_width, height: window_height },
            window_width,
            window_height,
        }
    }

    /// Where a window position lands in application coordinates: the
    /// identity while the editor is hidden, otherwise the remap of the
    /// viewport rectangle onto the full window.
    pub open spec fn spec_map_window_pos(&self, x: i32, y: i32) -> (i32, i32) {
        if !self.is_editor_active {
            (x, y)
        } else {
            (
                ((x - self.target_rect.left) * (self.window_width as int) / (
                self.target_rect.width as int)) as i32,
                ((y - self.target_rect.top) * (self.window_height as int) / (
                self.target_rect.height as int)) as i32,
            )
        }
    }

    /// Remap a window position into application coordinates.
    pub fn map_window_pos(&self, x: i32, y: i32) -> (r: (i32, i32))
        requires
            self.wf(),
            self.target_rect.left <= x < self.target_rect.left + self.target_rect.width,
            self.target_rect.top <= y < self.target_rect.top + self.target_rect.height,
        ensures
            r == self.spec_map_window_pos(x, y),
    {
        if !self.is_editor_active {
            (x, y)
        } else {
            proof {
                let dx = x - self.target_rect.left;
                let dy = y - self.target_rect.top;
                let w = self.window_width as int;
                let h = self.window_height as int;
                let rw = self.target_rect.width as int;
                let rh = self.target_rect.height as int;
                assert(dx * w >= 0 && dx * w < rw * w) by (nonlinear_arith)
                    requires
                        0 <= dx < rw,
                        0 < w,
                ;
                assert(dy * h >= 0 && dy * h < rh * h) by (nonlinear_arith)
                    requires
                        0 <= dy < rh,
                        0 < h,
                ;
                assert(rw * w <= GEOMETRY_BOUND * GEOMETRY_BOUND) by (nonlinear_arith)
                    requires
                        0 < rw < GEOMETRY_BOUND,
                        0 < w < GEOMETRY_BOUND,
                ;
                assert(rh * h <= GEOMETRY_BOUND * GEOMETRY_BOUND) by (nonlinear_arith)
                    requires
                        0 < rh < GEOMETRY_BOUND,
                        0 < h < GEOMETRY_BOUND,
                ;
                vstd::arithmetic::div_mod::lemma_multiply_divide_lt(dx * w, rw, w);
                vstd::arithmetic::div_mod::lemma_multiply_divide_lt(dy * h, rh, h);
                vstd::arithmetic::div_mod::lemma_div_is_ordered(0, dx * w, rw);
                vstd::arithmetic::div_mod::lemma_div_is_ordered(0, dy * h, rh);
            }
            let v = crate::util::map(
                Vec2 { x: x as i64, y: y as i64 },
                Vec2 { x: self.target_rect.left as i64, y: self.target_rect.top as i64 },
                Vec2 {
                    x: self.target_rect.left as i64 + self.target_rect.width as i64,
                    y: self.target_rect.top as i64 + self.target_rect.height as i64,
                },
                Vec2 { x: 0, y: 0 },
                Vec2 { x: self.window_width as i64, y: self.window_height as i64 },
            );
            (v.x as i32, v.y as i32)
        }
    }

    /// Route one input event.  The editor toggle (control-shift with the
    /// toggle key) flips the overlay and is consumed; mouse events inside
    /// the application's viewport are remapped into application
    /// coordinates; mouse events on the editor chrome are consumed; all
    /// other events pass through unchanged.
    pub fn process_event(&mut self, event: Event) -> (out: Option<Event>)
        requires
            old(self).wf(),
        ensures
            final(self).wf(),
            final(self).active_node == old(self).active_node,
            final(self).target_rect == old(self).target_rect,
            final(self).window_width == old(self).window_width,
            final(self).window_height == old(self).window_height,
            (event matches Event::KeyPressed { code: KeyCode::I, ctrl: true, shift: true })
                ==> final(self).is_editor_active == !old(self).is_editor_active && out == Some(
                Event::Noop,
            ),
            !(event matches Event::KeyPressed { code: KeyCode::I, ctrl: true, shift: true })
                ==> final(self).is_editor_active == old(self).is_editor_active,
            event matches Event::MouseButtonPressed { x, y } ==> out == Some(
                if old(self).target_rect.spec_contains(x, y) {
                    Event::MouseButtonPressed {
                        x: old(self).spec_map_window_pos(x, y).0,
                        y: old(self).spec_map_window_pos(x, y).1,
                    }
                } else {
                    Event::Noop
                },
            ),
            event matches Event::MouseButtonReleased { x, y } ==> out == Some(
                if old(self).target_rect.spec_contains(x, y) {
                    Event::MouseButtonReleased {
                        x: old(self).spec_map_window_pos(x, y).0,
                        y: old(self).spec_map_window_pos(x, y).1,
                    }
                } else {
                    Event::Noop
                },
            ),
            event matches Event::MouseMoved { x, y } ==> out == Some(
                if old(self).target_rect.spec_contains(x, y) {
                    Event::MouseMoved {
                        x: old(self).spec_map_window_pos(x, y).0,
                        y: old(self).spec_map_window_pos(x, y).1,
                    }
                } else {
                    Event::Noop
                },
            ),
            (event matches Event::Closed || event matches Event::Resized { .. } || event
                matches Event::Noop || event matches Event::Other || (event
                matches Event::KeyPressed { code, ctrl, shift } && !(code == KeyCode::I && ctrl
                && shift))) ==> out == Some(event),
    {
        match event {
            Event::KeyPressed { code: KeyCode::I, ctrl: true, shift: true } => {
                self.is_editor_active = !self.is_editor_active;
                Some(Event::Noop)
            },
            Event::MouseButtonPressed { x, y } => {
                if self.contains(x, y) {
                    let (mx, my) = self.map_window_pos(x, y);
                    Some(Event::MouseButtonPressed { x: mx, y: my })
                } else {
                    Some(Event::Noop)
                }
            },
            Event::MouseButtonReleased { x, y } => {
                if self.contains(x, y) {
                    let (mx, my) = self.map_window_pos(x, y);
                    Some(Event::MouseButtonReleased { x: mx, y: my })
                } else {
                    Some(Event::Noop)
                }
            },
            Event::MouseMoved { x, y } => {
                if self.contains(x, y) {
                    let (mx, my) = self.map_window_pos(x, y);
                    Some(Event::MouseMoved { x: mx, y: my })
                } else {
                    Some(Event::Noop)
                }
            },
            other => Some(other),
        }
    }

    /// Whether a window position falls inside the application viewport.
    fn contains(&self, x: i32, y: i32) -> (r: bool)
        requires
            self.wf(),
        ensures
            r == self.target_rect.spec_contains(x, y),
    {
        self.target_rect.left <= x && x < self.target_rect.left + self.target_rect.width
            && self.target_rect.top <= y && y < self.target_rect.top + self.target_rect.height
    }

    /// One frame of the editor overlay around the application's own
    /// output, with the given root value as the root of the node tree:
    /// the detail panel searches the tree for the selected identity and
    /// renders the match's editor; the tree panel renders the rows and
    /// takes the click, if any, as the new selection.  While the editor
    /// is hidden the frame draws nothing of its own.
    pub fn display_and_inspect(&mut self, root: Value, action: Option<Action>) -> (r: (Value, Ui))
        requires
            value_wf(root@),
            old(self).wf(),
        ensures
            final(self).wf(),
            final(self).is_editor_active == old(self).is_editor_active,
            final(self).target_rect == old(self).target_rect,
            !old(self).is_editor_active ==> r.0 == root && ops_view(r.1.ops@) == Seq::<
                OpV,
            >::empty() && final(self).active_node == old(self).active_node,
            old(self).is_editor_active ==> ({
                let a = act_view(action);
                let d = match old(self).active_node {
                    Some(aid) => dfs_spec(root@, ROOT_ID, aid, a, 0),
                    None => crate::inspectable::RenderOut {
                        ops: Seq::empty(),
                        eds: 0,
                        out: root@,
                    },
                };
                let t = node_spec(
                    d.out,
                    crate::ui::NameV::Named("root"@),
                    ROOT_ID,
                    old(self).active_node,
                    a,
                );
                &&& r.0@ == d.out
                &&& value_wf(r.0@)
                &&& ops_view(r.1.ops@) == seq![
                    OpV::Label("Inspector"@),
                ] + d.ops + seq![OpV::Label("Tree"@)] + t.ops
                &&& final(self).active_node == t.sel
                &&& r.1.action == action
            }),
    {
        let mut ui = Ui::new_frame(action);
        if self.is_editor_active {
            ui.put(WidgetOp::Label("Inspector".to_owned()));
            let root2 = match self.active_node {
                Some(aid) => {
                    proof {
                        crate::tree::lemma_dfs_preserves_wf(
                            root@,
                            ROOT_ID,
                            aid,
                            act_view(action),
                            0,
                        );
                    }
                    inspect_child_value(root, ROOT_ID, aid, &mut ui)
                },
                None => root,
            };
            ui.put(WidgetOp::Label("Tree".to_owned()));
            let mut sel = self.active_node;
            node_value(&root2, DisplayName::Named("root".to_owned()), ROOT_ID, &mut sel, &mut ui);
            self.active_node = sel;
            proof {
                assert(ops_view(Seq::<WidgetOp>::empty()) =~= Seq::<OpV>::empty());
            }
            (root2, ui)
        } else {
            proof {
                assert(ops_view(Seq::<WidgetOp>::empty()) =~= Seq::<OpV>::empty());
            }
            (root, ui)
        }
    }

    /// One frame without a root value: the tree panel only shows a hint
    /// that a root is needed.
    pub fn display(&mut self, action: Option<Action>) -> (r: Ui)
        requires
            old(self).wf(),
        ensures
            final(self).wf(),
            *final(self) == *old(self),
            !old(self).is_editor_active ==> ops_view(r.ops@) == Seq::<OpV>::empty(),
            old(self).is_editor_active ==> ops_view(r.ops@) == seq![
                OpV::Label("Inspector"@),
                OpV::Label("Tree"@),
                OpV::StaticText("pass a root value to display_and_inspect to use the node tree"@),
            ],
    {
        let mut ui = Ui::new_frame(action);
        if self.is_editor_active {
            ui.put(WidgetOp::Label("Inspector".to_owned()));
            ui.put(WidgetOp::Label("Tree".to_owned()));
            ui.put(
                WidgetOp::StaticText(
                    "pass a root value to display_and_inspect to use the node tree".to_owned(),
                ),
            );
            proof {
                assert(ops_view(Seq::<WidgetOp>::empty()) =~= Seq::<OpV>::empty());
            }
        } else {
            proof {
                assert(ops_view(Seq::<WidgetOp>::empty()) =~= Seq::<OpV>::empty());
            }
        }
        ui
    }
}

} // verus!
