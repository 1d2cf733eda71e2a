//! The gateway's table of lines and the decisions it takes over them.  The
//! caller owns the sockets and the epoll instance; it reports socket events
//! to the gateway and carries out the writes, registrations and connects
//! that the gateway's answers ask for.
use vstd::prelude::*;
use crate::config::DNS_ID;
use crate::global::Global;
use crate::line::any_line::{AnyLine, AnyLineView};

pub mod line_creater;
pub mod event;
pub mod line_manager;
pub mod dns;
pub mod pc;
pub mod john;

verus! {

pub struct Gate {
    lines: Vec<AnyLine>,
    global: Global,
}

/// Bytes to write to the socket of line `target`.
pub struct Send {
    pub target: u64,
    pub data: Vec<u8>,
}

impl View for Send {
    type V = (u64, Seq<u8>);

    open spec fn view(&self) -> (u64, Seq<u8>) {
        (self.target, self.data@)
    }
}

/// The abstract state of a gateway: its lines in table order, the frame
/// counter and the last line id handed out.
pub struct GateView {
    pub lines: Seq<AnyLineView>,
    pub frame: i32,
    pub last_id: u64,
}

impl View for Gate {
    type V = GateView;

    closed spec fn view(&self) -> GateView {
        GateView {
            lines: self.lines@.map_values(|l: AnyLine| l@),
            frame: self.global.frame_spec(),
            last_id: self.global.last_id(),
        }
    }
}

impl GateView {
    /// No two lines share an id.
    pub open spec fn ids_distinct(self) -> bool {
        forall|i: int, j: int|
            0 <= i < self.lines.len() && 0 <= j < self.lines.len() && i != j ==> #[trigger] self.lines[i].id()
                != #[trigger] self.lines[j].id()
    }

    /// Every id is the DNS line's or one handed out already.
    pub open spec fn ids_issued(self) -> bool {
        forall|i: int|
            0 <= i < self.lines.len() ==> self.lines[i] is Dns || (10 < #[trigger] self.lines[i].id() <= self.last_id)
    }

    pub open spec fn wf(self) -> bool {
        &&& self.ids_distinct()
        &&& self.ids_issued()
        &&& self.last_id >= 10
    }

    pub open spec fn has(self, id: u64) -> bool {
        exists|i: int| 0 <= i < self.lines.len() && #[trigger] self.lines[i].id() == id
    }

    /// Where the line with `id` stands in the table.
    pub open spec fn index_of(self, id: u64) -> int {
        choose|i: int| 0 <= i < self.lines.len() && #[trigger] self.lines[i].id() == id
    }

    /// The line with `id`.
    pub open spec fn line(self, id: u64) -> AnyLineView {
        self.lines[self.index_of(id)]
    }

    /// The table with the line at position `i` replaced by `l`.
    pub open spec fn with_line(self, i: int, l: AnyLineView) -> GateView {
        GateView { lines: self.lines.update(i, l), ..self }
    }
}

/// In a table without duplicate ids, the line with a given id is found at
/// its one position.
pub proof fn lemma_index_of(g: GateView, i: int)
    requires
        g.ids_distinct(),
        0 <= i < g.lines.len(),
    ensures
        g.has(g.lines[i].id()),
        g.index_of(g.lines[i].id()) == i,
{
    let id = g.lines[i].id();
    assert(g.has(id));
    let k = g.index_of(id);
    if k != i {
        assert(g.lines[k].id() != g.lines[i].id());
    }
}

impl Gate {
    pub fn new() -> (r: Gate)
        ensures
            r@ == (GateView { lines: Seq::empty(), frame: 0, last_id: 10 }),
            r@.wf(),
    {
        let r = Gate { lines: Vec::new(), global: Global::new() };
        assert(r@.lines =~= Seq::<AnyLineView>::empty());
        r
    }

    pub fn frame(&self) -> (r: i32)
        ensures
            r == self@.frame,
    {
        self.global.frame()
    }

    pub fn next_frame(&mut self)
        requires
            old(self)@.frame < i32::MAX,
        ensures
            final(self)@ == (GateView { frame: (old(self)@.frame + 1) as i32, ..old(self)@ }),
    {
        self.global.next_frame();
        assert(self@.lines =~= old(self)@.lines);
    }

    /// The last line id handed out.
    pub fn last_id(&self) -> (r: u64)
        ensures
            r == self@.last_id,
    {
        self.global.id()
    }

    /// The number of lines.
    pub fn len(&self) -> (r: usize)
        ensures
            r == self@.lines.len(),
    {
        self.lines.len()
    }

    /// Position of the line with `id`, if there is one.
    pub fn find(&self, id: u64) -> (r: Option<usize>)
        requires
            self@.wf(),
        ensures
            r is Some <==> self@.has(id),
            r matches Some(i) ==> i < self@.lines.len() && i == self@.index_of(id) && self@.lines[i as int].id() == id,
    {
        let n = self.lines.len();
        for i in 0..n
            invariant
                n == self.lines@.len(),
                self@.wf(),
                forall|j: int| 0 <= j < i ==> #[trigger] self@.lines[j].id() != id,
        {
            assert(self@.lines[i as int] == self.lines@[i as int]@);
            if self.lines[i].id() == id {
                proof {
                    lemma_index_of(self@, i as int);
                }
                return Some(i);
            }
        }
        None
    }

    /// Whether the gateway has a line with `id`.
    pub fn has(&self, id: u64) -> (r: bool)
        requires
            self@.wf(),
        ensures
            r == self@.has(id),
    {
        self.find(id).is_some()
    }

    /// The line with `id`.
    pub fn line(&self, id: u64) -> (r: &AnyLine)
        requires
            self@.wf(),
            self@.has(id),
        ensures
            r@ == self@.line(id),
    {
        let i = self.find(id).unwrap();
        &self.lines[i]
    }
}

} // verus!
