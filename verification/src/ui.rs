//! The per-frame drawing context.
//!
//! The windowing backend and the widget toolkit are outside collaborators:
//! the core only needs a context that records, in order, the primitive
//! widgets of one frame, and that routes at most one user action into the
//! widget it targets.  Editor widgets (drag boxes, checkboxes, text boxes,
//! buttons, variant selectors) are numbered in the order they are emitted;
//! an edit action names the ordinal of the editor it targets.  Tree rows are
//! addressed by their 64-bit node identity instead, which is the point of
//! the identity scheme: a click on a row is reported against the identity
//! the row was drawn with.

use vstd::prelude::*;

verus! {

/// A display name of a field or element: a declared field name, or the
/// position of an unnamed field or of a sequence element.
#[derive(Clone, Debug, PartialEq, Eq)]
pub enum DisplayName {
    Named(String),
    Index(u64),
}

/// Mathematical mirror of `DisplayName`.
pub enum NameV {
    Named(Seq<char>),
    Index(u64),
}

impl View for DisplayName {
    type V = NameV;

    open spec fn view(&self) -> NameV {
        match self {
            DisplayName::Named(s) => NameV::Named(s@),
            DisplayName::Index(i) => NameV::Index(*i),
        }
    }
}

/// One primitive widget emitted into a frame, in drawing order.
#[derive(Clone, Debug, PartialEq, Eq)]
pub enum WidgetOp {
    /// Plain text.
    Label(String),
    /// The inert, disabled placeholder drawn for a value that does not
    /// offer the requested capability.
    Placeholder,
    /// Numeric drag editor showing the current value.
    DragInt(i64),
    /// Numeric drag editor for a duration in whole seconds, clamped at zero.
    DragSeconds(u64),
    /// Checkbox showing the current value.
    Checkbox(bool),
    /// Single-line text editor showing the current contents.
    TextEdit(String),
    /// Read-only single-line text display.
    StaticText(String),
    /// One selectable label of a variant selector; `active` marks the
    /// variant the value currently holds.
    VariantLabel { active: bool, name: String },
    /// Button that fills an absent optional value with a default.
    AddButton,
    /// Button that clears a present optional value.
    RemoveButton,
    /// Start of a visual group (a box around related widgets).
    GroupStart,
    /// End of a visual group.
    GroupEnd,
    /// Start of a labelled `name: widget` row.
    RowStart(DisplayName),
    /// End of a labelled row.
    RowEnd,
    /// A leaf row of the navigation tree.
    LeafRow { id: u64, name: DisplayName, selected: bool },
    /// Start of a collapsible tree row with children; its body runs until
    /// the matching `NodeEnd`.
    NodeStart { id: u64, name: DisplayName, selected: bool },
    /// End of a collapsible tree row.
    NodeEnd,
}

/// At most one user action is delivered per frame.  Edits target editor
/// widgets by their ordinal within the frame; row clicks target tree rows
/// by node identity.
#[derive(Clone, Debug, PartialEq, Eq)]
pub enum Action {
    /// Click the editor widget with the given ordinal.
    Click(usize),
    /// Set the numeric editor with the given ordinal to the value.
    SetInt(usize, i64),
    /// Set the checkbox with the given ordinal to the value.
    SetBool(usize, bool),
    /// Set the text editor with the given ordinal to the contents.
    SetText(usize, String),
    /// Click the tree row drawn with the given node identity.
    ClickRow(u64),
}

/// Mathematical mirror of `WidgetOp`.
pub enum OpV {
    Label(Seq<char>),
    Placeholder,
    DragInt(i64),
    DragSeconds(u64),
    Checkbox(bool),
    TextEdit(Seq<char>),
    StaticText(Seq<char>),
    VariantLabel { active: bool, name: Seq<char> },
    AddButton,
    RemoveButton,
    GroupStart,
    GroupEnd,
    RowStart(NameV),
    RowEnd,
    LeafRow { id: u64, name: NameV, selected: bool },
    NodeStart { id: u64, name: NameV, selected: bool },
    NodeEnd,
}

impl View for WidgetOp {
    type V = OpV;

    open spec fn view(&self) -> OpV {
        match self {
            WidgetOp::Label(s) => OpV::Label(s@),
            WidgetOp::Placeholder => OpV::Placeholder,
            WidgetOp::DragInt(n) => OpV::DragInt(*n),
            WidgetOp::DragSeconds(n) => OpV::DragSeconds(*n),
            WidgetOp::Checkbox(b) => OpV::Checkbox(*b),
            WidgetOp::TextEdit(s) => OpV::TextEdit(s@),
            WidgetOp::StaticText(s) => OpV::StaticText(s@),
            WidgetOp::VariantLabel { active, name } => OpV::VariantLabel {
                active: *active,
                name: name@,
            },
            WidgetOp::AddButton => OpV::AddButton,
            WidgetOp::RemoveButton => OpV::RemoveButton,
            WidgetOp::GroupStart => OpV::GroupStart,
            WidgetOp::GroupEnd => OpV::GroupEnd,
            WidgetOp::RowStart(n) => OpV::RowStart(n@),
            WidgetOp::RowEnd => OpV::RowEnd,
            WidgetOp::LeafRow { id, name, selected } => OpV::LeafRow {
                id: *id,
                name: name@,
                selected: *selected,
            },
            WidgetOp::NodeStart { id, name, selected } => OpV::NodeStart {
                id: *id,
                name: name@,
                selected: *selected,
            },
            WidgetOp::NodeEnd => OpV::NodeEnd,
        }
    }
}

/// Mathematical mirror of `Action`.
pub enum ActV {
    Click(usize),
    SetInt(usize, i64),
    SetBool(usize, bool),
    SetText(usize, Seq<char>),
    ClickRow(u64),
}

impl View for Action {
    type V = ActV;

    open spec fn view(&self) -> ActV {
        match self {
            Action::Click(o) => ActV::Click(*o),
            Action::SetInt(o, v) => ActV::SetInt(*o, *v),
            Action::SetBool(o, v) => ActV::SetBool(*o, *v),
            Action::SetText(o, s) => ActV::SetText(*o, s@),
            Action::ClickRow(i) => ActV::ClickRow(*i),
        }
    }
}

/// The view of the frame's pending action.
pub open spec fn act_view(a: Option<Action>) -> Option<ActV> {
    match a {
        Some(x) => Some(x@),
        None => None,
    }
}

/// Whether the action is a click on the editor with ordinal `e`.
pub open spec fn is_click(act: Option<ActV>, e: int) -> bool {
    match act {
        Some(ActV::Click(o)) => o == e,
        _ => false,
    }
}

/// Whether the action is a click on the tree row with identity `id`.
pub open spec fn is_row_click(act: Option<ActV>, id: u64) -> bool {
    act == Some(ActV::ClickRow(id))
}

/// The value set into the numeric editor with ordinal `e`, if any.
pub open spec fn set_int_at(act: Option<ActV>, e: int) -> Option<i64> {
    match act {
        Some(ActV::SetInt(o, x)) => if o == e {
            Some(x)
        } else {
            None
        },
        _ => None,
    }
}

/// The value set into the checkbox with ordinal `e`, if any.
pub open spec fn set_bool_at(act: Option<ActV>, e: int) -> Option<bool> {
    match act {
        Some(ActV::SetBool(o, x)) => if o == e {
            Some(x)
        } else {
            None
        },
        _ => None,
    }
}

/// The contents set into the text editor with ordinal `e`, if any.
pub open spec fn set_text_at(act: Option<ActV>, e: int) -> Option<Seq<char>> {
    match act {
        Some(ActV::SetText(o, s)) => if o == e {
            Some(s)
        } else {
            None
        },
        _ => None,
    }
}

/// The variant selector entry clicked among the `n` entries whose editors
/// start at ordinal `e0`, if any.
pub open spec fn clicked_variant(act: Option<ActV>, e0: int, n: int) -> Option<int> {
    match act {
        Some(ActV::Click(o)) => if e0 <= o < e0 + n {
            Some(o - e0)
        } else {
            None
        },
        _ => None,
    }
}

/// The view of a widget trace.
pub open spec fn ops_view(s: Seq<WidgetOp>) -> Seq<OpV> {
    s.map(|i: int, op: WidgetOp| op@)
}

/// Appending one widget appends its view.
pub broadcast proof fn lemma_ops_view_push(s: Seq<WidgetOp>, op: WidgetOp)
    ensures
        #[trigger] ops_view(s.push(op)) == ops_view(s).push(op@),
{
    assert(ops_view(s.push(op)) =~= ops_view(s).push(op@));
}

/// Whether a widget consumes an editor ordinal.
pub open spec fn is_editor_op(op: WidgetOp) -> bool {
    match op {
        WidgetOp::DragInt(_) => true,
        WidgetOp::DragSeconds(_) => true,
        WidgetOp::Checkbox(_) => true,
        WidgetOp::TextEdit(_) => true,
        WidgetOp::VariantLabel { .. } => true,
        WidgetOp::AddButton => true,
        WidgetOp::RemoveButton => true,
        _ => false,
    }
}

/// The drawing context of one frame.
pub struct Ui {
    /// The widgets drawn so far, in order.
    pub ops: Vec<WidgetOp>,
    /// The number of editor widgets drawn so far.
    pub editors: usize,
    /// The single pending user action of this frame, if any.
    pub action: Option<Action>,
}

impl Ui {
    /// Editor ordinals never outrun the widget trace.
    pub open spec fn wf(&self) -> bool {
        self.editors <= self.ops.len()
    }

    /// The pending action, as the widget helpers read it.
    pub open spec fn act(&self) -> Option<Action> {
        self.action
    }

    /// A fresh frame context carrying the frame's pending action.
    pub fn new_frame(action: Option<Action>) -> (ui: Ui)
        ensures
            ui.wf(),
            ui.ops@ == Seq::<WidgetOp>::empty(),
            ui.editors == 0,
            ui.action == action,
    {
        Ui { ops: Vec::new(), editors: 0, action }
    }

    /// Draw a widget that is not an editor.
    pub fn put(&mut self, op: WidgetOp)
        requires
            old(self).wf(),
            !is_editor_op(op),
        ensures
            final(self).wf(),
            final(self).ops@ == old(self).ops@.push(op),
            final(self).editors == old(self).editors,
            final(self).action == old(self).action,
    {
        self.ops.push(op);
    }

    /// Draw an editor widget and claim the next editor ordinal, which is
    /// returned.
    pub fn put_editor(&mut self, op: WidgetOp) -> (ordinal: usize)
        requires
            old(self).wf(),
            is_editor_op(op),
        ensures
            final(self).wf(),
            final(self).ops@ == old(self).ops@.push(op),
            final(self).editors == old(self).editors + 1,
            final(self).action == old(self).action,
            ordinal == old(self).editors,
    {
        self.ops.push(op);
        let n = self.ops.len();
        let ordinal = self.editors;
        assert(ordinal < n);
        self.editors = ordinal + 1;
        ordinal
    }

    /// Whether the pending action is a click on the editor with the given
    /// ordinal.
    pub fn clicked(&self, ordinal: usize) -> (r: bool)
        ensures
            r == is_click(act_view(self.action), ordinal as int),
    {
        match &self.action {
            Some(Action::Click(o)) => *o == ordinal,
            _ => false,
        }
    }

    /// Whether the pending action is a click on the tree row with the given
    /// node identity.
    pub fn row_clicked(&self, id: u64) -> (r: bool)
        ensures
            r == is_row_click(act_view(self.action), id),
    {
        match &self.action {
            Some(Action::ClickRow(i)) => *i == id,
            _ => false,
        }
    }

    /// The value the pending action sets into the numeric editor with the
    /// given ordinal, if any.
    pub fn set_int(&self, ordinal: usize) -> (r: Option<i64>)
        ensures
            r == set_int_at(act_view(self.action), ordinal as int),
    {
        match &self.action {
            Some(Action::SetInt(o, x)) => if *o == ordinal {
                Some(*x)
            } else {
                None
            },
            _ => None,
        }
    }

    /// The value the pending action sets into the checkbox with the given
    /// ordinal, if any.
    pub fn set_bool(&self, ordinal: usize) -> (r: Option<bool>)
        ensures
            r == set_bool_at(act_view(self.action), ordinal as int),
    {
        match &self.action {
            Some(Action::SetBool(o, x)) => if *o == ordinal {
                Some(*x)
            } else {
                None
            },
            _ => None,
        }
    }

    /// The contents the pending action sets into the text editor with the
    /// given ordinal, if any.
    pub fn set_text(&self, ordinal: usize) -> (r: Option<String>)
        ensures
            match r {
                Some(s) => set_text_at(act_view(self.action), ordinal as int) == Some(s@),
                None => set_text_at(act_view(self.action), ordinal as int) is None,
            },
    {
        match &self.action {
            Some(Action::SetText(o, s)) => if *o == ordinal {
                Some(s.clone())
            } else {
                None
            },
            _ => None,
        }
    }
}

} // verus!
