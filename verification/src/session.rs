//! The session: the arena of windows, the arena of objects and the terminal,
//! and the rendering of a frame.
use vstd::prelude::*;
use vstd::string::*;

use crate::draw::{begin, lemma_only_puts_fail, op_error, run, DrawOp};
use crate::error::OmmaErr;
use crate::object::{new_object_settings, Object, ObjectBuilder, ObjectBuilderView, ObjectView};
use crate::term::{
    blank_term, enter_alt_screen, hide_cursor, leave_alt_screen, probe_error, probe_ok,
    show_cursor, OmmaTerm, Probe, TermView,
};
use crate::text::{decimal, object_counter_wrapped, push_decimal, window_counter_wrapped};
use crate::window::{
    arena_wf, lemma_window_ops_only_puts, links_wf, new_settings, object_views, tree_wf,
    window_ops, window_views, Window, WindowBuilder, WindowBuilderView, WindowView,
};
use crate::{current_window_id, next_window_id, IdCounters};

verus! {

/// A session as a value.
pub struct SessionView {
    pub term: TermView,
    /// The windows, each at the place of its id. The first is the root.
    pub windows: Seq<WindowView>,
    /// The objects, each at the place of its id.
    pub objects: Seq<ObjectView>,
}

/// The settings of the root window: a visible virtual window of one cell.
pub open spec fn root_settings() -> WindowBuilderView {
    WindowBuilderView { name: Some("System Window"@), virt: true, ..new_settings(1, 1) }
}

/// The session on the given terminal in which nothing was registered: it
/// holds the root window and nothing else. The root is a visible virtual
/// window of one cell with the id 0. It has no children: it is not its own.
pub open spec fn fresh_session(term: TermView) -> SessionView {
    SessionView { term, windows: seq![root_settings().built(0)], objects: Seq::empty() }
}

impl SessionView {
    /// The terminal is well formed, the root exists, the arena can be
    /// composited, every window but the root stands behind its parent, and
    /// every object stands at the place of its id and belongs to a window.
    pub open spec fn wf(self) -> bool {
        &&& self.term.wf()
        &&& self.windows.len() >= 1
        &&& arena_wf(self.windows, self.objects)
        &&& self.windows[0].parent_id == 0
        &&& forall|i: int|
            0 < i < self.windows.len() ==> (#[trigger] self.windows[i]).parent_id < i
        &&& forall|j: int|
            0 <= j < self.objects.len() ==> (#[trigger] self.objects[j]).id == j
                && self.objects[j].parent_id < self.windows.len()
    }

    /// Whether the counters are those of this session: the next ids are the
    /// next places in its arenas.
    pub open spec fn in_step(self, ids: IdCounters) -> bool {
        ids.window_id == self.windows.len() && ids.object_id == self.objects.len()
    }

    /// Whether the arena admits the window at its end: the window is well
    /// formed, its id is the next place, it has no child but at most itself,
    /// and the arena holds its objects.
    pub open spec fn admits(self, w: WindowView) -> bool {
        w.fits(
            self.windows.len() as int,
            self.windows.len() as int + 1,
            self.objects.len() as int,
        )
    }

    /// The session after a window was registered: the window stands at the
    /// end of the arena, and its id at the end of the children of its parent.
    pub open spec fn with_window(self, w: WindowView) -> SessionView {
        let parent = self.windows[w.parent_id as int];
        SessionView {
            windows: self.windows.update(
                w.parent_id as int,
                WindowView { children: parent.children.push(w.id), ..parent },
            ).push(w),
            ..self
        }
    }

    /// The session after an object was registered: the object stands at the
    /// end of the arena, and its id at the end of the objects of its window.
    pub open spec fn with_object(self, o: ObjectView) -> SessionView {
        let parent = self.windows[o.parent_id as int];
        SessionView {
            windows: self.windows.update(
                o.parent_id as int,
                WindowView { objects: parent.objects.push(o.id), ..parent },
            ),
            objects: self.objects.push(o),
            ..self
        }
    }

    /// What a frame draws: the root window with all that is below it.
    pub open spec fn frame_ops(self) -> Seq<DrawOp> {
        window_ops(self.windows, self.objects, 0, 0, 0)
    }
}

/// The message for a window id that the arena does not hold, where it holds
/// `count` windows.
pub open spec fn invalid_window_error(id: u32, count: int) -> Seq<char> {
    "invalid window_id "@ + decimal(id as nat) + ", max is "@ + decimal(
        (if count > 0 {
            count - 1
        } else {
            0
        }) as nat,
    )
}

/// The message for an object id that the arena does not hold, where it
/// holds `count` objects.
pub open spec fn invalid_object_error(id: u32, count: int) -> Seq<char> {
    "invalid object_id "@ + decimal(id as nat) + ", max is "@ + decimal(
        (if count > 0 {
            count - 1
        } else {
            0
        }) as nat,
    )
}

/// The message for a second session.
pub open spec fn once_error() -> Seq<char> {
    "Session::new() may only be invoked once per executable lifetime"@
}

/// The error for a window id that an arena of `count` windows does not hold.
pub(crate) fn invalid_window_id(id: u32, count: usize) -> (e: OmmaErr)
    ensures
        e@ == invalid_window_error(id, count as int),
{
    let mut body = String::from_str("invalid window_id ");
    push_decimal(&mut body, id as u64);
    body.append(", max is ");
    push_decimal(&mut body, count.saturating_sub(1) as u64);
    OmmaErr::from_string(body)
}

/// The error for an object id that an arena of `count` objects does not hold.
pub(crate) fn invalid_object_id(id: u32, count: usize) -> (e: OmmaErr)
    ensures
        e@ == invalid_object_error(id, count as int),
{
    let mut body = String::from_str("invalid object_id ");
    push_decimal(&mut body, id as u64);
    body.append(", max is ");
    push_decimal(&mut body, count.saturating_sub(1) as u64);
    OmmaErr::from_string(body)
}

/// The arenas and the terminal.
pub struct Session {
    term: OmmaTerm,
    windows: Vec<Window>,
    objects: Vec<Object>,
}

impl View for Session {
    type V = SessionView;

    closed spec fn view(&self) -> SessionView {
        SessionView {
            term: self.term@,
            windows: window_views(self.windows@),
            objects: object_views(self.objects@),
        }
    }
}

impl Session {
    /// The session on a real terminal of the probed size. It can be made
    /// once for a set of counters: it takes the window id 0 for the root
    /// window, and fails where that id was handed out before. A probe that
    /// gave no usable size is refused first. A failure leaves the counters
    /// as they are.
    pub fn new(ids: &mut IdCounters, probe: Probe) -> (res: Result<Session, OmmaErr>)
        ensures
            match res {
                Ok(session) => probe matches Probe::Size { rows, cols } && rows != 0 && cols != 0
                    && old(ids).window_id == 0 && session@ == fresh_session(
                    blank_term(rows, cols, true, enter_alt_screen() + hide_cursor()),
                ) && session@.wf() && *final(ids) == (IdCounters {
                    window_id: 1,
                    object_id: old(ids).object_id,
                }),
                Err(e) => *final(ids) == *old(ids) && (if !probe_ok(probe) {
                    e@ == probe_error(probe)
                } else {
                    old(ids).window_id != 0 && e@ == once_error()
                }),
            },
            res is Ok <==> probe_ok(probe) && old(ids).fresh(),
    {
        let term = match OmmaTerm::new(probe) {
            Ok(term) => term,
            Err(e) => {
                return Err(e);
            },
        };
        Session::new_inner(ids, term)
    }

    /// The session on a terminal of the given size that stands for no real
    /// screen. Like [`Session::new`] it can be made once for a set of
    /// counters.
    pub fn new_headless(ids: &mut IdCounters, max_row: u16, max_col: u16) -> (res: Result<
        Session,
        OmmaErr,
    >)
        ensures
            match res {
                Ok(session) => old(ids).window_id == 0 && session@ == fresh_session(
                    blank_term(max_row, max_col, false, Seq::empty()),
                ) && session@.wf() && *final(ids) == (IdCounters {
                    window_id: 1,
                    object_id: old(ids).object_id,
                }),
                Err(e) => *final(ids) == *old(ids) && old(ids).window_id != 0 && e@
                    == once_error(),
            },
            res is Ok <==> old(ids).fresh(),
    {
        let term = match OmmaTerm::new_mock(max_row, max_col) {
            Ok(term) => term,
            Err(e) => {
                return Err(e);
            },
        };
        Session::new_inner(ids, term)
    }

    /// The headless session of 50 rows and 50 columns.
    pub fn default_headless(ids: &mut IdCounters) -> (res: Result<Session, OmmaErr>)
        ensures
            match res {
                Ok(session) => old(ids).window_id == 0 && session@ == fresh_session(
                    blank_term(50, 50, false, Seq::empty()),
                ) && session@.wf() && *final(ids) == (IdCounters {
                    window_id: 1,
                    object_id: old(ids).object_id,
                }),
                Err(e) => *final(ids) == *old(ids) && old(ids).window_id != 0 && e@
                    == once_error(),
            },
            res is Ok <==> old(ids).fresh(),
    {
        Session::new_headless(ids, 50, 50)
    }

    /// Makes the session on a terminal.
    fn new_inner(ids: &mut IdCounters, term: OmmaTerm) -> (res: Result<Session, OmmaErr>)
        requires
            term@.wf(),
        ensures
            match res {
                Ok(session) => old(ids).window_id == 0 && session@ == fresh_session(term@)
                    && session@.wf() && *final(ids) == (IdCounters {
                    window_id: 1,
                    object_id: old(ids).object_id,
                }),
                Err(e) => *final(ids) == *old(ids) && old(ids).window_id != 0 && e@
                    == once_error(),
            },
    {
        if current_window_id(ids) != 0 {
            return Err(
                OmmaErr::new("Session::new() may only be invoked once per executable lifetime"),
            );
        }
        let id = match next_window_id(ids) {
            Ok(id) => id,
            Err(e) => {
                return Err(e);
            },
        };
        let root = WindowBuilder::new(1, 1).name(String::from_str("System Window")).virt().build(
            id,
        );
        let mut windows: Vec<Window> = Vec::new();
        windows.push(root);
        let session = Session { term, windows, objects: Vec::new() };
        proof {
            let view = fresh_session(term@);
            assert(session@.windows =~= view.windows);
            assert(session@.objects =~= view.objects);
            assert(links_wf(view.windows, view.objects, 0));
        }
        Ok(session)
    }

    /// Whether the session is well formed. Every session that was made and
    /// changed by registering windows and objects is, and it stays so as
    /// long as the children and objects of its windows are left alone.
    pub fn is_wf(&self) -> (b: bool)
        ensures
            b == self@.wf(),
    {
        let windows = self.windows.len();
        let objects = self.objects.len();
        if !self.term.is_wf() || windows == 0 {
            return false;
        }
        if self.windows[0].parent_id() != 0 {
            return false;
        }
        let mut i: usize = 0;
        while i < windows
            invariant
                windows == self.windows@.len(),
                objects == self.objects@.len(),
                i <= windows,
                self@.windows[0].parent_id == 0,
                forall|n: int| 0 <= n < i ==> #[trigger] links_wf(self@.windows, self@.objects, n),
                forall|n: int| 0 < n < i ==> (#[trigger] self@.windows[n]).parent_id < n,
            decreases windows - i,
        {
            let window = &self.windows[i];
            assert(window@ == self@.windows[i as int]);
            if !window.fits(i, windows, objects) {
                assert(!links_wf(self@.windows, self@.objects, i as int));
                return false;
            }
            if i > 0 && window.parent_id() as usize >= i {
                return false;
            }
            i += 1;
        }
        let mut j: usize = 0;
        while j < objects
            invariant
                windows == self.windows@.len(),
                objects == self.objects@.len(),
                j <= objects,
                forall|n: int|
                    0 <= n < j ==> (#[trigger] self@.objects[n]).id == n
                        && self@.objects[n].parent_id < windows,
            decreases objects - j,
        {
            let object = &self.objects[j];
            assert(object@ == self@.objects[j as int]);
            if object.id() as usize != j || object.window_id() as usize >= windows {
                return false;
            }
            j += 1;
        }
        true
    }

    /// Whether the counters are those of this session.
    pub fn in_step(&self, ids: &IdCounters) -> (b: bool)
        ensures
            b == self@.in_step(*ids),
    {
        ids.window_id as usize == self.windows.len() && ids.object_id as usize
            == self.objects.len()
    }

    /// The terminal of the session.
    pub fn term(&self) -> (term: &OmmaTerm)
        ensures
            term@ == self@.term,
    {
        &self.term
    }

    /// The number of windows, the root among them.
    pub fn window_count(&self) -> (n: usize)
        ensures
            n == self@.windows.len(),
    {
        self.windows.len()
    }

    /// The number of objects.
    pub fn object_count(&self) -> (n: usize)
        ensures
            n == self@.objects.len(),
    {
        self.objects.len()
    }

    /// The settings for a new window of the given size.
    pub fn new_window(&self, width: usize, height: usize) -> (b: WindowBuilder)
        ensures
            b@ == new_settings(width, height),
    {
        WindowBuilder::new(width, height)
    }

    /// The settings for a new object.
    pub fn new_object(&self) -> (b: ObjectBuilder)
        ensures
            b@ == new_object_settings(),
    {
        ObjectBuilder::new()
    }

    /// The window with the given id, to read and to change. Fails where the
    /// arena holds no such window.
    pub fn window(&mut self, window_id: u32) -> (res: Result<&mut Window, OmmaErr>)
        ensures
            match res {
                Ok(w) => {
                    &&& window_id < old(self)@.windows.len()
                    &&& w@ == old(self)@.windows[window_id as int]
                    &&& final(self)@.windows == old(self)@.windows.update(
                        window_id as int,
                        final(w)@,
                    )
                    &&& final(self)@.objects == old(self)@.objects
                    &&& final(self)@.term == old(self)@.term
                    &&& old(self)@.wf() ==> w@.wf()
                    &&& old(self)@.wf() && final(w)@.wf() && final(w)@.same_links(w@)
                        ==> final(self)@.wf()
                },
                Err(e) => window_id >= old(self)@.windows.len() && final(self)@ == old(self)@
                    && e@ == invalid_window_error(window_id, old(self)@.windows.len() as int),
            },
    {
        proof {
            let before = self@;
            let id = window_id as int;
            if before.wf() && window_id < before.windows.len() {
                assert(links_wf(before.windows, before.objects, id));
                assert forall|after: SessionView|
                    after.windows =~= before.windows.update(id, after.windows[id]) && after.objects
                        == before.objects && after.term == before.term && after.windows[id].wf()
                        && after.windows[id].same_links(before.windows[id]) implies
                    #[trigger] after.wf() by {
                    lemma_window_change_keeps_wf(before, id, after.windows[id]);
                }
            }
        }
        Session::window_direct(&mut self.windows, window_id)
    }

    /// The window with the given id in an arena of windows.
    pub fn window_direct(windows: &mut Vec<Window>, window_id: u32) -> (res: Result<
        &mut Window,
        OmmaErr,
    >)
        ensures
            match res {
                Ok(w) => window_id < old(windows)@.len() && *w == old(windows)@[window_id as int]
                    && final(windows)@ == old(windows)@.update(window_id as int, *final(w)),
                Err(e) => window_id >= old(windows)@.len() && final(windows)@ == old(windows)@
                    && e@ == invalid_window_error(window_id, old(windows)@.len() as int),
            },
    {
        let id = window_id as usize;
        if id < windows.len() {
            Ok(&mut windows[id])
        } else {
            Err(invalid_window_id(window_id, windows.len()))
        }
    }

    /// The object with the given id, to read and to change. Fails where the
    /// arena holds no such object.
    pub fn object(&mut self, object_id: u32) -> (res: Result<&mut Object, OmmaErr>)
        ensures
            match res {
                Ok(o) => {
                    &&& object_id < old(self)@.objects.len()
                    &&& o@ == old(self)@.objects[object_id as int]
                    &&& final(self)@.objects == old(self)@.objects.update(
                        object_id as int,
                        final(o)@,
                    )
                    &&& final(self)@.windows == old(self)@.windows
                    &&& final(self)@.term == old(self)@.term
                    &&& old(self)@.wf() && final(o)@.id == o@.id && final(o)@.parent_id
                        == o@.parent_id ==> final(self)@.wf()
                },
                Err(e) => object_id >= old(self)@.objects.len() && final(self)@ == old(self)@
                    && e@ == invalid_object_error(object_id, old(self)@.objects.len() as int),
            },
    {
        proof {
            let before = self@;
            let id = object_id as int;
            if before.wf() && object_id < before.objects.len() {
                assert forall|after: SessionView|
                    after.objects =~= before.objects.update(id, after.objects[id]) && after.windows
                        == before.windows && after.term == before.term && after.objects[id].id
                        == before.objects[id].id && after.objects[id].parent_id
                        == before.objects[id].parent_id implies #[trigger] after.wf() by {
                    lemma_object_change_keeps_wf(before, id, after.objects[id]);
                }
            }
        }
        Session::object_direct(&mut self.objects, object_id)
    }

    /// The object with the given id in an arena of objects.
    pub fn object_direct(objects: &mut Vec<Object>, object_id: u32) -> (res: Result<
        &mut Object,
        OmmaErr,
    >)
        ensures
            match res {
                Ok(o) => object_id < old(objects)@.len() && *o == old(objects)@[object_id as int]
                    && final(objects)@ == old(objects)@.update(object_id as int, *final(o)),
                Err(e) => object_id >= old(objects)@.len() && final(objects)@ == old(objects)@
                    && e@ == invalid_object_error(object_id, old(objects)@.len() as int),
            },
    {
        let id = object_id as usize;
        if id < objects.len() {
            Ok(&mut objects[id])
        } else {
            Err(invalid_object_id(object_id, objects.len()))
        }
    }

    /// Puts a window at the end of the arena and its id at the end of the
    /// children of its parent. Fails, changing nothing, where the arena does
    /// not hold the parent: a window can only stand below one that was
    /// registered before it. Below the root, which every well-formed session
    /// holds, it always succeeds.
    ///
    /// The session stays well formed where the window is one that the arena
    /// admits: a well-formed window whose id is the next place.
    pub fn register_window(&mut self, window: Window) -> (res: Result<u32, OmmaErr>)
        ensures
            match res {
                Ok(id) => id == window@.id && window@.parent_id < old(self)@.windows.len()
                    && final(self)@ == old(self)@.with_window(window@),
                Err(e) => window@.parent_id >= old(self)@.windows.len() && final(self)@ == old(
                    self,
                )@ && e@ == invalid_window_error(
                    window@.parent_id,
                    old(self)@.windows.len() as int,
                ),
            },
            res is Ok <==> window@.parent_id < old(self)@.windows.len(),
            old(self)@.wf() && window@.parent_id == 0 ==> res is Ok,
            old(self)@.wf() && (res is Ok ==> old(self)@.admits(window@)) ==> final(self)@.wf(),
    {
        let id = window.id();
        let parent = window.parent_id();
        if parent as usize >= self.windows.len() {
            return Err(invalid_window_id(parent, self.windows.len()));
        }
        let ghost w = window@;
        self.windows[parent as usize].add_child(id);
        self.windows.push(window);
        proof {
            let before = old(self)@;
            let after = before.with_window(w);
            assert(self@.windows =~= after.windows);
            assert(self@.objects =~= after.objects);
            if before.wf() && before.admits(w) {
                lemma_with_window_wf(before, w);
            }
        }
        Ok(id)
    }

    /// Puts an object at the end of the arena and its id at the end of the
    /// objects of its window. Fails, changing nothing, where the arena does
    /// not hold the window.
    ///
    /// The session stays well formed where the id of the object is the next
    /// place in the arena.
    pub fn register_object(&mut self, object: Object) -> (res: Result<u32, OmmaErr>)
        ensures
            match res {
                Ok(id) => id == object@.id && object@.parent_id < old(self)@.windows.len()
                    && final(self)@ == old(self)@.with_object(object@),
                Err(e) => object@.parent_id >= old(self)@.windows.len() && final(self)@ == old(
                    self,
                )@ && e@ == invalid_window_error(
                    object@.parent_id,
                    old(self)@.windows.len() as int,
                ),
            },
            res is Ok <==> object@.parent_id < old(self)@.windows.len(),
            old(self)@.wf() && object@.parent_id == 0 ==> res is Ok,
            old(self)@.wf() && (res is Ok ==> object@.id == old(self)@.objects.len())
                ==> final(self)@.wf(),
    {
        let id = object.id();
        let parent = object.window_id();
        if parent as usize >= self.windows.len() {
            return Err(invalid_window_id(parent, self.windows.len()));
        }
        let ghost o = object@;
        self.windows[parent as usize].add_object(id);
        self.objects.push(object);
        proof {
            let before = old(self)@;
            let after = before.with_object(o);
            assert(self@.windows =~= after.windows);
            assert(self@.objects =~= after.objects);
            if before.wf() && o.id == before.objects.len() {
                lemma_with_object_wf(before, o);
            }
        }
        Ok(id)
    }

    /// Makes the window of the given settings and registers it.
    pub fn submit_window(&mut self, ids: &mut IdCounters, windowbuilder: WindowBuilder) -> (res:
        Result<u32, OmmaErr>)
        requires
            old(self)@.wf(),
            old(self)@.in_step(*old(ids)),
        ensures
            submitted_window(*old(ids), old(self)@, windowbuilder@, *final(ids), final(self)@, res),
            final(self)@.wf(),
            final(self)@.in_step(*final(ids)),
    {
        windowbuilder.submit(ids, self)
    }

    /// Makes the object of the given settings and registers it.
    pub fn submit_object(&mut self, ids: &mut IdCounters, objectbuilder: ObjectBuilder) -> (res:
        Result<u32, OmmaErr>)
        requires
            old(self)@.wf(),
            old(self)@.in_step(*old(ids)),
        ensures
            submitted_object(*old(ids), old(self)@, objectbuilder@, *final(ids), final(self)@, res),
            final(self)@.wf(),
            final(self)@.in_step(*final(ids)),
    {
        objectbuilder.submit(ids, self)
    }

    /// Draws a frame: composites the root window, with all that is below
    /// it, into the back buffer of the terminal, and then queues what shows
    /// the whole back buffer. Returns the number of cells of the terminal.
    ///
    /// Where the compositing fails, nothing is queued, and the back buffer
    /// stays as the compositing left it.
    pub fn render(&mut self) -> (res: Result<u32, OmmaErr>)
        requires
            old(self)@.wf(),
        ensures
            rendered(old(self)@, final(self)@, res),
            final(self)@.wf(),
    {
        proof {
            assert(links_wf(self@.windows, self@.objects, 0));
            assert(self@.windows[0] == self.windows@[0]@);
        }
        let drawn = self.windows[0].blit(&self.windows, &self.objects, &mut self.term, 0, 0);
        match drawn {
            Ok(_) => {},
            Err(e) => {
                return Err(e);
            },
        }
        proof {
            lemma_rendered_wf(self@.term);
        }
        self.term.render()
    }

    /// Hands in a key that was typed.
    pub fn push_key(&mut self, key: u8)
        ensures
            final(self)@ == (SessionView {
                term: TermView { keys: old(self)@.term.keys.push(key), ..old(self)@.term },
                ..old(self)@
            }),
    {
        self.term.push_key(key);
    }

    /// The oldest key that was typed and not read yet, or nothing where no
    /// key waits. It never fails.
    pub fn read_key(&mut self) -> (res: Result<Option<char>, OmmaErr>)
        ensures
            res matches Ok(key) && (if old(self)@.term.keys.len() == 0 {
                key == None::<char> && final(self)@ == old(self)@
            } else {
                key == Some(old(self)@.term.keys[0] as char) && final(self)@ == (SessionView {
                    term: TermView {
                        keys: old(self)@.term.keys.drop_first(),
                        ..old(self)@.term
                    },
                    ..old(self)@
                })
            }),
    {
        self.term.read_key()
    }

    /// Takes what was queued for the terminal, in the order it was queued.
    pub fn take_output(&mut self) -> (text: String)
        ensures
            text@ == old(self)@.term.out,
            final(self)@ == (SessionView {
                term: TermView { out: Seq::empty(), ..old(self)@.term },
                ..old(self)@
            }),
    {
        self.term.take_output()
    }

    /// Ends the session. Returns what is still to be written to the
    /// terminal: what was queued, then the showing of the cursor, then, for a
    /// real screen, the switch back from the alternate screen.
    pub fn close(self) -> (text: String)
        ensures
            text@ == self@.term.out + show_cursor() + (if self@.term.raw {
                leave_alt_screen()
            } else {
                Seq::empty()
            }),
    {
        self.term.close()
    }
}

/// Whether going from `before` to `after` with the result `res` is the
/// drawing of a frame.
pub open spec fn rendered(
    before: SessionView,
    after: SessionView,
    res: Result<u32, OmmaErr>,
) -> bool {
    let o = run(before.frame_ops(), begin(before.term.back));
    let drawn = TermView { back: o.back, ..before.term };
    match res {
        Ok(n) => o.failed is None && after == (SessionView { term: drawn.rendered(), ..before })
            && n == before.term.max_col * before.term.max_row,
        Err(e) => o.failed matches Some(op) && after == (SessionView { term: drawn, ..before })
            && e@ == op_error(op, before.term.max_col as int, before.term.max_row as int),
    }
}

/// Whether going from the counters `ids` and the session `before` to
/// `ids_after` and `after` with the result `res` is the submitting of a
/// window with the given settings. It succeeds where an id is left and the
/// arena holds the parent: the window gets the next id and is registered. A
/// failure changes nothing; where no id is left, that is the error.
pub open spec fn submitted_window(
    ids: IdCounters,
    before: SessionView,
    settings: WindowBuilderView,
    ids_after: IdCounters,
    after: SessionView,
    res: Result<u32, OmmaErr>,
) -> bool {
    match res {
        Ok(id) => {
            &&& ids.window_id < u32::MAX
            &&& settings.parent_id < before.windows.len()
            &&& id == ids.window_id
            &&& ids_after == (IdCounters { window_id: (id + 1) as u32, ..ids })
            &&& after == before.with_window(settings.built(id))
        },
        Err(e) => {
            &&& ids_after == ids
            &&& after == before
            &&& if ids.window_id == u32::MAX {
                e@ == window_counter_wrapped()
            } else {
                settings.parent_id >= before.windows.len() && e@ == invalid_window_error(
                    settings.parent_id,
                    before.windows.len() as int,
                )
            }
        },
    }
}

/// Whether going from the counters `ids` and the session `before` to
/// `ids_after` and `after` with the result `res` is the submitting of an
/// object with the given settings.
pub open spec fn submitted_object(
    ids: IdCounters,
    before: SessionView,
    settings: ObjectBuilderView,
    ids_after: IdCounters,
    after: SessionView,
    res: Result<u32, OmmaErr>,
) -> bool {
    match res {
        Ok(id) => {
            &&& ids.object_id < u32::MAX
            &&& settings.parent_id < before.windows.len()
            &&& id == ids.object_id
            &&& ids_after == (IdCounters { object_id: (id + 1) as u32, ..ids })
            &&& after == before.with_object(settings.built(id))
        },
        Err(e) => {
            &&& ids_after == ids
            &&& after == before
            &&& if ids.object_id == u32::MAX {
                e@ == object_counter_wrapped()
            } else {
                settings.parent_id >= before.windows.len() && e@ == invalid_window_error(
                    settings.parent_id,
                    before.windows.len() as int,
                )
            }
        },
    }
}

/// A session is made at most once for a set of counters. Making it takes the
/// window id 0 of fresh counters, and a counter only grows: whatever ids are
/// handed out afterwards, the counters are never fresh again, and making a
/// session with them fails.
pub proof fn lemma_session_once(start: IdCounters, made: IdCounters, later: IdCounters)
    requires
        start.fresh(),
        made == (IdCounters { window_id: 1, ..start }),
        later.follows(made),
    ensures
        !made.fresh(),
        !later.fresh(),
{
}

/// Below the root a window can always be registered: a well-formed session
/// holds the window 0. The arena then holds one window more, the new one at
/// the place of its id, its id ends the children of the root, and nothing
/// else has changed.
pub proof fn lemma_root_is_held(s: SessionView, w: WindowView)
    requires
        s.wf(),
        w.id == s.windows.len(),
        w.parent_id == 0,
    ensures
        w.parent_id < s.windows.len(),
        s.with_window(w).windows.len() == s.windows.len() + 1,
        s.with_window(w).windows[w.id as int] == w,
        s.with_window(w).windows[0] == (WindowView {
            children: s.windows[0].children.push(w.id),
            ..s.windows[0]
        }),
        forall|i: int| 0 < i < s.windows.len() ==> s.with_window(w).windows[i] == s.windows[i],
        s.with_window(w).objects == s.objects,
        s.with_window(w).term == s.term,
        s.admits(w) ==> s.with_window(w).wf(),
{
    if s.admits(w) {
        lemma_with_window_wf(s, w);
    }
}

/// In a session whose windows all came into it by being registered, no
/// window lists itself: the session starts so, and registering keeps it so.
pub proof fn lemma_registering_keeps_tree(s: SessionView, w: WindowView, o: ObjectView)
    requires
        s.wf(),
        tree_wf(s.windows),
        w.id == s.windows.len(),
        w.parent_id < s.windows.len(),
        w.children.len() == 0,
        o.parent_id < s.windows.len(),
    ensures
        tree_wf(fresh_session(s.term).windows),
        tree_wf(s.with_window(w).windows),
        tree_wf(s.with_object(o).windows),
{
    let grown = s.with_window(w).windows;
    assert forall|i: int, k: int|
        0 <= i < grown.len() && 0 <= k < grown[i].children.len() implies i
        < #[trigger] grown[i].children[k] by {
        if i == w.parent_id && k == s.windows[i].children.len() {
        } else {
            assert(i < s.windows[i].children[k]);
        }
    }
    let kept = s.with_object(o).windows;
    assert forall|i: int, k: int|
        0 <= i < kept.len() && 0 <= k < kept[i].children.len() implies i
        < #[trigger] kept[i].children[k] by {
        assert(i < s.windows[i].children[k]);
    }
}

/// In a session in which no window lists itself, a frame fails only where a
/// cell falls outside the terminal.
pub proof fn lemma_frame_fails_outside_only(s: SessionView)
    requires
        tree_wf(s.windows),
    ensures
        run(s.frame_ops(), begin(s.term.back)).failed matches Some(op) ==> op is Put,
{
    lemma_window_ops_only_puts(s.windows, s.objects, 0, 0, 0);
    lemma_only_puts_fail(s.frame_ops(), begin(s.term.back));
}

/// Registering a window that the arena admits, below one that the arena
/// holds, keeps the session well formed.
pub proof fn lemma_with_window_wf(s: SessionView, w: WindowView)
    requires
        s.wf(),
        s.admits(w),
        w.parent_id < s.windows.len(),
    ensures
        s.with_window(w).wf(),
{
    let after = s.with_window(w);
    assert forall|i: int| 0 <= i < after.windows.len() implies #[trigger] links_wf(
        after.windows,
        after.objects,
        i,
    ) by {
        if i < s.windows.len() {
            assert(links_wf(s.windows, s.objects, i));
        }
    }
    assert forall|i: int| 0 < i < after.windows.len() implies (
    #[trigger] after.windows[i]).parent_id < i by {
        if i < s.windows.len() {
            assert(s.windows[i].parent_id < i);
        }
    }
    assert forall|j: int| 0 <= j < after.objects.len() implies (
    #[trigger] after.objects[j]).id == j && after.objects[j].parent_id < after.windows.len() by {
        assert(s.objects[j].id == j);
    }
}

/// Registering a new object of a window that the arena holds keeps the
/// session well formed.
pub proof fn lemma_with_object_wf(s: SessionView, o: ObjectView)
    requires
        s.wf(),
        o.id == s.objects.len(),
        o.parent_id < s.windows.len(),
    ensures
        s.with_object(o).wf(),
{
    let after = s.with_object(o);
    assert forall|i: int| 0 <= i < after.windows.len() implies #[trigger] links_wf(
        after.windows,
        after.objects,
        i,
    ) by {
        assert(links_wf(s.windows, s.objects, i));
    }
    assert forall|i: int| 0 < i < after.windows.len() implies (
    #[trigger] after.windows[i]).parent_id < i by {
        assert(s.windows[i].parent_id < i);
    }
    assert forall|j: int| 0 <= j < after.objects.len() implies (
    #[trigger] after.objects[j]).id == j && after.objects[j].parent_id < after.windows.len() by {
        if j < s.objects.len() {
            assert(s.objects[j].id == j);
        }
    }
}

/// A session stays well formed when one of its windows is changed in a way
/// that keeps the window well formed and leaves its id, its parent, its
/// children and its objects as they are.
pub proof fn lemma_window_change_keeps_wf(s: SessionView, id: int, w: WindowView)
    requires
        s.wf(),
        0 <= id < s.windows.len(),
        w.wf(),
        w.id == s.windows[id].id,
        w.parent_id == s.windows[id].parent_id,
        w.children == s.windows[id].children,
        w.objects == s.windows[id].objects,
    ensures
        (SessionView { windows: s.windows.update(id, w), ..s }).wf(),
{
    let after = SessionView { windows: s.windows.update(id, w), ..s };
    assert forall|i: int| 0 <= i < after.windows.len() implies #[trigger] links_wf(
        after.windows,
        after.objects,
        i,
    ) by {
        assert(links_wf(s.windows, s.objects, i));
    }
    assert forall|i: int| 0 < i < after.windows.len() implies (
    #[trigger] after.windows[i]).parent_id < i by {
        assert(s.windows[i].parent_id < i);
    }
}

/// A session stays well formed when one of its objects is changed in a way
/// that leaves its id and its window as they are.
pub proof fn lemma_object_change_keeps_wf(s: SessionView, id: int, o: ObjectView)
    requires
        s.wf(),
        0 <= id < s.objects.len(),
        o.id == s.objects[id].id,
        o.parent_id == s.objects[id].parent_id,
    ensures
        (SessionView { objects: s.objects.update(id, o), ..s }).wf(),
{
    let after = SessionView { objects: s.objects.update(id, o), ..s };
    assert forall|i: int| 0 <= i < after.windows.len() implies #[trigger] links_wf(
        after.windows,
        after.objects,
        i,
    ) by {
        assert(links_wf(s.windows, s.objects, i));
    }
    assert forall|j: int| 0 <= j < after.objects.len() implies (
    #[trigger] after.objects[j]).id == j && after.objects[j].parent_id < after.windows.len() by {
        assert(s.objects[j].id == j);
    }
}

/// Showing the back buffer keeps the terminal well formed.
pub proof fn lemma_rendered_wf(term: TermView)
    requires
        term.wf(),
    ensures
        term.rendered().wf(),
{
}

} // verus!
