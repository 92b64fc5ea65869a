//! Objects: single cells that belong to a window and are drawn above it.
use vstd::prelude::*;
use vstd::string::*;

use crate::cell::OmmaCell;
use crate::draw::{begin, clamp_add, lemma_run_one, put, DrawOp};
use crate::error::OmmaErr;
use crate::session::{invalid_window_id, submitted_object, Session};
use crate::term::{painted, OmmaTerm};
use crate::text::{decimal, push_decimal};
use crate::{current_object_id, next_object_id, IdCounters};

verus! {

/// An object as a value.
pub struct ObjectView {
    pub id: u32,
    /// The window that the object belongs to.
    pub parent_id: u32,
    pub name: Seq<char>,
    /// Where the object stands, counted from the content of its window.
    pub offset_x: usize,
    pub offset_y: usize,
    pub hidden: bool,
    /// What the object shows, if anything.
    pub cell: Option<OmmaCell>,
}

impl ObjectView {
    /// The object as text: `V` or `H` for visible or hidden, the id, the
    /// name, and the id of the window, with colons between them.
    pub open spec fn label(self) -> Seq<char> {
        (if self.hidden {
            "H"@
        } else {
            "V"@
        }) + ":"@ + decimal(self.id as nat) + ":"@ + self.name + ":"@ + decimal(
            self.parent_id as nat,
        )
    }
}

/// The operations that draw an object whose window has its content at
/// column `parent_x` and row `parent_y`: one put of its cell, or none where
/// the object is hidden or has no cell.
pub open spec fn object_ops(obj: ObjectView, parent_x: usize, parent_y: usize) -> Seq<DrawOp> {
    if obj.hidden || obj.cell is None {
        Seq::empty()
    } else {
        seq![
            put(
                clamp_add(obj.offset_x as int, parent_x as int),
                clamp_add(obj.offset_y as int, parent_y as int),
                obj.cell->0,
            ),
        ]
    }
}

/// The name of an object that was given none.
pub open spec fn unnamed_object(id: u32) -> Seq<char> {
    "Unnamed Object #"@ + decimal(id as nat)
}

/// A single cell that belongs to one window.
pub struct Object {
    id: u32,
    parent_id: u32,
    name: String,
    offset_x: usize,
    offset_y: usize,
    hidden: bool,
    cell: Option<OmmaCell>,
}

impl View for Object {
    type V = ObjectView;

    closed spec fn view(&self) -> ObjectView {
        ObjectView {
            id: self.id,
            parent_id: self.parent_id,
            name: self.name@,
            offset_x: self.offset_x,
            offset_y: self.offset_y,
            hidden: self.hidden,
            cell: self.cell,
        }
    }
}

/// What an object is made from.
pub struct ObjectBuilder {
    parent_id: u32,
    name: Option<String>,
    offset_x: usize,
    offset_y: usize,
    hidden: bool,
    cell: Option<OmmaCell>,
}

/// The settings of an [`ObjectBuilder`].
pub struct ObjectBuilderView {
    pub parent_id: u32,
    pub name: Option<Seq<char>>,
    pub offset_x: usize,
    pub offset_y: usize,
    pub hidden: bool,
    pub cell: Option<OmmaCell>,
}

/// The settings that a builder starts with: a visible object without a name
/// or a cell, at the origin of the root window.
pub open spec fn new_object_settings() -> ObjectBuilderView {
    ObjectBuilderView {
        parent_id: 0,
        name: None,
        offset_x: 0,
        offset_y: 0,
        hidden: false,
        cell: None,
    }
}

impl ObjectBuilderView {
    /// The object that these settings give under the id `id`.
    pub open spec fn built(self, id: u32) -> ObjectView {
        ObjectView {
            id,
            parent_id: self.parent_id,
            name: match self.name {
                Some(name) => name,
                None => unnamed_object(id),
            },
            offset_x: self.offset_x,
            offset_y: self.offset_y,
            hidden: self.hidden,
            cell: self.cell,
        }
    }
}

impl View for ObjectBuilder {
    type V = ObjectBuilderView;

    closed spec fn view(&self) -> ObjectBuilderView {
        ObjectBuilderView {
            parent_id: self.parent_id,
            name: match self.name {
                Some(name) => Some(name@),
                None => None,
            },
            offset_x: self.offset_x,
            offset_y: self.offset_y,
            hidden: self.hidden,
            cell: self.cell,
        }
    }
}

impl ObjectBuilder {
    /// A visible object without a name or a cell, at the origin of the root
    /// window.
    pub fn new() -> (b: ObjectBuilder)
        ensures
            b@ == new_object_settings(),
    {
        ObjectBuilder {
            parent_id: 0,
            name: None,
            offset_x: 0,
            offset_y: 0,
            hidden: false,
            cell: None,
        }
    }

    /// Sets the window that the object belongs to. Without it that is the
    /// root window.
    pub fn parent(self, parent_id: u32) -> (b: ObjectBuilder)
        ensures
            b@ == (ObjectBuilderView { parent_id, ..self@ }),
    {
        let mut b = self;
        b.parent_id = parent_id;
        b
    }

    /// Sets the name.
    pub fn name(self, name: String) -> (b: ObjectBuilder)
        ensures
            b@ == (ObjectBuilderView { name: Some(name@), ..self@ }),
    {
        let mut b = self;
        b.name = Some(name);
        b
    }

    /// Sets where the object stands in its window.
    pub fn offset(self, offset_x: usize, offset_y: usize) -> (b: ObjectBuilder)
        ensures
            b@ == (ObjectBuilderView { offset_x, offset_y, ..self@ }),
    {
        let mut b = self;
        b.offset_x = offset_x;
        b.offset_y = offset_y;
        b
    }

    /// Makes the object hidden.
    pub fn hidden(self) -> (b: ObjectBuilder)
        ensures
            b@ == (ObjectBuilderView { hidden: true, ..self@ }),
    {
        let mut b = self;
        b.hidden = true;
        b
    }

    /// Sets the cell that the object shows.
    pub fn cell(self, cell: &OmmaCell) -> (b: ObjectBuilder)
        ensures
            b@ == (ObjectBuilderView { cell: Some(*cell), ..self@ }),
    {
        let mut b = self;
        b.cell = Some(*cell);
        b
    }

    /// Makes the object and registers it with the session, under the next
    /// object id. Returns the id. Fails, changing neither the counters nor
    /// the session, where no id is left or the session does not hold the
    /// window.
    pub fn submit(&self, ids: &mut IdCounters, session: &mut Session) -> (res: Result<
        u32,
        OmmaErr,
    >)
        requires
            old(session)@.wf(),
            old(session)@.in_step(*old(ids)),
        ensures
            submitted_object(
                *old(ids),
                old(session)@,
                self@,
                *final(ids),
                final(session)@,
                res,
            ),
            final(session)@.wf(),
            final(session)@.in_step(*final(ids)),
    {
        let count = session.window_count();
        if current_object_id(ids) < u32::MAX && self.parent_id as usize >= count {
            return Err(invalid_window_id(self.parent_id, count));
        }
        let id = match next_object_id(ids) {
            Ok(id) => id,
            Err(e) => {
                return Err(e);
            },
        };
        let object = self.build(id);
        session.register_object(object)
    }

    /// Makes the object with the given id.
    pub fn build(&self, id: u32) -> (object: Object)
        ensures
            object@ == self@.built(id),
    {
        let name = match &self.name {
            Some(name) => name.clone(),
            None => {
                let mut name = String::from_str("Unnamed Object #");
                push_decimal(&mut name, id as u64);
                name
            },
        };
        Object {
            id,
            name,
            parent_id: self.parent_id,
            offset_x: self.offset_x,
            offset_y: self.offset_y,
            hidden: self.hidden,
            cell: self.cell,
        }
    }
}

impl Object {
    pub fn id(&self) -> (id: u32)
        ensures
            id == self@.id,
    {
        self.id
    }

    /// The id of the window that the object belongs to.
    pub fn window_id(&self) -> (id: u32)
        ensures
            id == self@.parent_id,
    {
        self.parent_id
    }

    pub fn offset_x(&self) -> (n: usize)
        ensures
            n == self@.offset_x,
    {
        self.offset_x
    }

    pub fn offset_y(&self) -> (n: usize)
        ensures
            n == self@.offset_y,
    {
        self.offset_y
    }

    pub fn is_hidden(&self) -> (h: bool)
        ensures
            h == self@.hidden,
    {
        self.hidden
    }

    /// Hides a visible object and shows a hidden one.
    pub fn toggle_hidden(&mut self)
        ensures
            final(self)@ == (ObjectView { hidden: !old(self)@.hidden, ..old(self)@ }),
    {
        self.hidden = !self.hidden;
    }

    /// Hides the object.
    pub fn set_hidden(&mut self)
        ensures
            final(self)@ == (ObjectView { hidden: true, ..old(self)@ }),
    {
        self.hidden = true
    }

    /// Shows the object.
    pub fn clear_hidden(&mut self)
        ensures
            final(self)@ == (ObjectView { hidden: false, ..old(self)@ }),
    {
        self.hidden = false
    }

    /// The object as text.
    pub fn to_string(&self) -> (s: String)
        ensures
            s@ == self@.label(),
    {
        let mut s = if self.hidden {
            String::from_str("H")
        } else {
            String::from_str("V")
        };
        s.append(":");
        push_decimal(&mut s, self.id as u64);
        s.append(":");
        s.append(self.name.as_str());
        s.append(":");
        push_decimal(&mut s, self.parent_id as u64);
        s
    }

    /// Draws the object into the back buffer of the terminal, for a window
    /// whose content starts at column `parent_x` and row `parent_y`. A
    /// hidden object and one without a cell draw nothing and return 0.
    pub fn blit(&self, term: &mut OmmaTerm, parent_x: usize, parent_y: usize) -> (res: Result<
        u32,
        OmmaErr,
    >)
        requires
            old(term)@.wf(),
        ensures
            painted(old(term)@, final(term)@, res, object_ops(self@, parent_x, parent_y)),
    {
        if self.hidden {
            return Ok(0);
        }
        match &self.cell {
            Some(cell) => {
                let x = self.offset_x.saturating_add(parent_x);
                let y = self.offset_y.saturating_add(parent_y);
                proof {
                    lemma_run_one(put(x, y, *cell), begin(term@.back));
                }
                term.put_cell_at(x, y, cell)
            },
            None => Ok(0),
        }
    }
}

} // verus!
