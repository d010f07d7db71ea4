//! The sketch store: the shapes drawn so far, and which of them is picked.
use vstd::prelude::*;
use crate::point::Point;
use crate::primitive::Primitive;
use crate::geometry::rooted;
use crate::laws::law_some_hit_is_picked;
use crate::extrude::{extrude, extruded, Solid};

verus! {

/// A shape in the store.
#[derive(Clone, Copy, Debug, PartialEq, Eq, Structural)]
pub struct Entry {
    /// The shape.
    pub primitive: Primitive,
    /// Whether the shape has been extruded. A retired shape stays in the
    /// store, but it is no longer drawn and can be neither picked nor
    /// extruded again.
    pub retired: bool,
}

/// What a store holds: its entries, oldest first, and the index of the
/// picked one.
pub struct StoreView {
    pub entries: Seq<Entry>,
    pub selected: Option<int>,
}

impl StoreView {
    /// The store with no shapes.
    pub open spec fn empty() -> StoreView {
        StoreView { entries: Seq::empty(), selected: None }
    }

    /// The picked index, if any, refers to an entry.
    pub open spec fn wf(self) -> bool {
        self.selected matches Some(i) ==> 0 <= i < self.entries.len()
    }

    /// Whether entry `i` is the picked one.
    pub open spec fn is_selected(self, i: int) -> bool {
        self.selected == Some(i)
    }

    /// Whether entry `j` exists, is not retired, and is picked by a click at
    /// `p` with tolerance `tol`.
    pub open spec fn active_hit(self, j: int, p: Point, tol: int) -> bool {
        &&& 0 <= j < self.entries.len()
        &&& !self.entries[j].retired
        &&& self.entries[j].primitive.hits(p, tol)
    }

    /// Whether entry `i` comes before entry `j` where both are equally near:
    /// a line before a circle, a circle before a rectangle, and of two shapes
    /// of one kind the older.
    pub open spec fn precedes(self, i: int, j: int) -> bool {
        let a = self.entries[i].primitive;
        let b = self.entries[j].primitive;
        a.rank() < b.rank() || (a.rank() == b.rank() && i < j)
    }

    /// Whether entry `i` wins against entry `j` for a click at `p`.
    ///
    /// The smaller gap wins, compared exactly. Only where neither gap is the
    /// smaller do the kind and the age of the shapes decide.
    pub open spec fn beats(self, i: int, j: int, p: Point) -> bool {
        let a = self.entries[i].primitive.gap(p);
        let b = self.entries[j].primitive.gap(p);
        a.less(b) || (!b.less(a) && self.precedes(i, j))
    }

    /// Whether entry `i` is the one that a click at `p` picks: it is hit, and
    /// it wins against every other entry that is hit.
    pub open spec fn is_best_hit(self, i: int, p: Point, tol: int) -> bool {
        &&& self.active_hit(i, p, tol)
        &&& forall|j: int| #[trigger] self.active_hit(j, p, tol) && j != i ==> self.beats(i, j, p)
    }

    /// The entry that a click at `p` picks, or `None` when the click hits
    /// nothing.
    pub open spec fn best_hit(self, p: Point, tol: int) -> Option<int> {
        if exists|i: int| self.is_best_hit(i, p, tol) {
            Some(choose|i: int| self.is_best_hit(i, p, tol))
        } else {
            None
        }
    }

    /// Whether `roots` holds, for each entry whose gap to `p` is a ring gap,
    /// the square root that the gap involves.
    pub open spec fn roots_of(self, p: Point, roots: Seq<real>) -> bool {
        &&& roots.len() == self.entries.len()
        &&& forall|j: int|
            0 <= j < self.entries.len() ==> rooted(
                self.entries[j].primitive.gap(p),
                #[trigger] roots[j],
            )
    }

    /// The store after a click at `p` with the selection tool.
    pub open spec fn select(self, p: Point, tol: int) -> StoreView {
        StoreView { entries: self.entries, selected: self.best_hit(p, tol) }
    }

    /// The store after `primitive` has been added to it.
    pub open spec fn commit(self, primitive: Primitive) -> StoreView {
        StoreView {
            entries: self.entries.push(Entry { primitive, retired: false }),
            selected: self.selected,
        }
    }

    /// The entry that an extrusion would work on: the picked one, unless it
    /// is retired.
    pub open spec fn extrudable(self) -> Option<int> {
        match self.selected {
            Some(i) => if 0 <= i < self.entries.len() && !self.entries[i].retired {
                Some(i)
            } else {
                None
            },
            None => None,
        }
    }

    /// The store after entry `i` has been retired.
    pub open spec fn retire(self, i: int) -> StoreView {
        StoreView {
            entries: self.entries.update(i, Entry { primitive: self.entries[i].primitive, retired: true }),
            selected: self.selected,
        }
    }

    /// The store after an extrusion.
    pub open spec fn extrude(self) -> StoreView {
        match self.extrudable() {
            Some(i) => self.retire(i),
            None => self,
        }
    }

    /// The solid that an extrusion by `distance` gives, if it gives one.
    pub open spec fn extrusion(self, distance: int) -> Option<Solid> {
        match self.extrudable() {
            Some(i) => Some(extruded(self.entries[i].primitive, distance)),
            None => None,
        }
    }

    /// A click picks at most one entry.
    pub proof fn lemma_best_hit_unique(self, i: int, j: int, p: Point, tol: int)
        requires
            self.is_best_hit(i, p, tol),
            self.is_best_hit(j, p, tol),
        ensures
            i == j,
    {
        if i != j {
            assert(self.beats(i, j, p));
            assert(self.beats(j, i, p));
            self.entries[i].primitive.gap(p).lemma_less_asymmetric(self.entries[j].primitive.gap(p));
        }
    }

    /// `best_hit` is `Some(i)` exactly for the entry `i` that the click
    /// picks, and `None` exactly when no entry is hit.
    pub proof fn lemma_best_hit(self, p: Point, tol: int)
        ensures
            forall|i: int| self.is_best_hit(i, p, tol) <==> self.best_hit(p, tol) == Some(i),
    {
        assert forall|i: int| self.is_best_hit(i, p, tol) <==> self.best_hit(p, tol) == Some(
            i,
        ) by {
            if self.is_best_hit(i, p, tol) {
                let c = choose|k: int| self.is_best_hit(k, p, tol);
                self.lemma_best_hit_unique(i, c, p, tol);
            }
        }
    }
}

/// The index `o` as the view of a store gives it.
pub open spec fn index_view(o: Option<usize>) -> Option<int> {
    match o {
        Some(i) => Some(i as int),
        None => None,
    }
}

/// The shapes of one sketch, oldest first, and the one that is picked.
///
/// At most one shape is picked at a time. A shape that has been extruded is
/// retired: it stays in the store, hidden.
pub struct SketchStore {
    entries: Vec<Entry>,
    selected: Option<usize>,
}

impl View for SketchStore {
    type V = StoreView;

    closed spec fn view(&self) -> StoreView {
        StoreView { entries: self.entries@, selected: index_view(self.selected) }
    }
}

impl SketchStore {
    /// An empty store.
    pub fn new() -> (s: SketchStore)
        ensures
            s@ == StoreView::empty(),
            s@.wf(),
    {
        SketchStore { entries: Vec::new(), selected: None }
    }

    /// The number of shapes in the store, retired ones included.
    pub fn len(&self) -> (n: usize)
        ensures
            n == self@.entries.len(),
    {
        self.entries.len()
    }

    /// Entry `i`, or `None` when the store has no such entry.
    pub fn entry(&self, i: usize) -> (e: Option<Entry>)
        ensures
            e == (if i < self@.entries.len() {
                Some(self@.entries[i as int])
            } else {
                None
            }),
    {
        if i < self.entries.len() {
            Some(self.entries[i])
        } else {
            None
        }
    }

    /// The index of the picked shape.
    pub fn selected(&self) -> (r: Option<usize>)
        ensures
            index_view(r) == self@.selected,
    {
        self.selected
    }

    /// Whether shape `i` is the picked one.
    pub fn is_selected(&self, i: usize) -> (r: bool)
        ensures
            r == self@.is_selected(i as int),
    {
        match self.selected {
            Some(s) => s == i,
            None => false,
        }
    }

    /// Empties the store and forgets the selection.
    pub fn clear(&mut self)
        ensures
            final(self)@ == StoreView::empty(),
            final(self)@.wf(),
    {
        self.selected = None;
        self.entries.clear();
    }

    /// Adds `primitive` as the youngest shape and returns its index. The
    /// selection stays as it is.
    pub fn commit(&mut self, primitive: Primitive) -> (index: usize)
        ensures
            final(self)@ == old(self)@.commit(primitive),
            index == old(self)@.entries.len(),
            old(self)@.wf() ==> final(self)@.wf(),
    {
        let index: usize = self.entries.len();
        self.entries.push(Entry { primitive, retired: false });
        index
    }

    /// Whether shape `i` wins against shape `j` for a click at `p`.
    fn beats_at(&self, i: usize, j: usize, p: Point) -> (r: bool)
        requires
            i < self@.entries.len(),
            j < self@.entries.len(),
        ensures
            r == self@.beats(i as int, j as int, p),
    {
        let a: Primitive = self.entries[i].primitive;
        let b: Primitive = self.entries[j].primitive;
        if a.nearer_than(&b, p) {
            true
        } else if b.nearer_than(&a, p) {
            false
        } else {
            let ra: u8 = a.kind_rank();
            let rb: u8 = b.kind_rank();
            ra < rb || (ra == rb && i < j)
        }
    }

    /// Whether shape `j` is there, is not retired, and is hit by a click at
    /// `p`.
    fn active_hit_at(&self, j: usize, p: Point, tol: u32) -> (r: bool)
        ensures
            r == self@.active_hit(j as int, p, tol as int),
    {
        j < self.entries.len() && !self.entries[j].retired && self.entries[j].primitive.hit_by(
            p,
            tol,
        )
    }

    /// Whether shape `i` is the one that a click at `p` picks: it is hit, and
    /// it wins against every other shape that is hit.
    pub fn wins(&self, i: usize, p: Point, tol: u32) -> (r: bool)
        ensures
            r == self@.is_best_hit(i as int, p, tol as int),
    {
        if !self.active_hit_at(i, p, tol) {
            return false;
        }
        let n: usize = self.entries.len();
        let mut j: usize = 0;
        while j < n
            invariant
                j <= n,
                n == self@.entries.len(),
                i < n,
                self@.active_hit(i as int, p, tol as int),
                forall|k: int|
                    0 <= k < j && #[trigger] self@.active_hit(k, p, tol as int) && k != i
                        ==> self@.beats(i as int, k, p),
            decreases n - j,
        {
            if j != i && self.active_hit_at(j, p, tol) && !self.beats_at(i, j, p) {
                return false;
            }
            j = j + 1;
        }
        true
    }

    /// The shape that a first look over the store makes out as the winner:
    /// the one that has won against each winner before it.
    fn candidate(&self, p: Point, tol: u32) -> (r: Option<usize>)
        ensures
            r matches Some(b) ==> b < self@.entries.len(),
    {
        let n: usize = self.entries.len();
        let mut best: Option<usize> = None;
        let mut k: usize = 0;
        while k < n
            invariant
                k <= n,
                n == self@.entries.len(),
                best matches Some(b) ==> b < n,
            decreases n - k,
        {
            if self.active_hit_at(k, p, tol) {
                best = match best {
                    Some(b) => if self.beats_at(k, b, p) {
                        Some(k)
                    } else {
                        Some(b)
                    },
                    None => Some(k),
                };
            }
            k = k + 1;
        }
        best
    }

    /// The shape that a click at `p` picks, with a tolerance of `tol` ticks.
    ///
    /// Of the shapes that are hit and not retired, the one with the smallest
    /// gap is picked, and gaps are compared exactly. Where two gaps are
    /// equal, a line comes before a circle and a circle before a rectangle,
    /// and of two shapes of one kind the older comes first. A rectangle that
    /// is hit has the gap zero, so it wins against every line and circle that
    /// the click does not lie on exactly.
    ///
    /// The winner of a first look over the store is confirmed against every
    /// shape that is hit before it is returned, so the answer rests on
    /// comparisons of two gaps only. That a click which hits a shape always
    /// has a winner is a fact about square roots, which are no whole numbers:
    /// the last clause states it for whatever the roots are.
    pub fn hit_test(&self, p: Point, tol: u32) -> (r: Option<usize>)
        ensures
            index_view(r) == self@.best_hit(p, tol as int),
            r matches Some(i) ==> self@.is_best_hit(i as int, p, tol as int),
            r is None ==> forall|i: int| !self@.is_best_hit(i, p, tol as int),
            (forall|j: int| !self@.active_hit(j, p, tol as int)) ==> r is None,
            forall|roots: Seq<real>| #[trigger]
                self@.roots_of(p, roots) && (exists|j: int| self@.active_hit(j, p, tol as int))
                    ==> r is Some,
    {
        proof {
            self@.lemma_best_hit(p, tol as int);
        }
        if let Some(b) = self.candidate(p, tol) {
            if self.wins(b, p, tol) {
                return Some(b);
            }
        }
        let n: usize = self.entries.len();
        let mut i: usize = 0;
        while i < n
            invariant
                i <= n,
                n == self@.entries.len(),
                forall|k: int| 0 <= k < i ==> !self@.is_best_hit(k, p, tol as int),
                forall|k: int|
                    self@.is_best_hit(k, p, tol as int) <==> self@.best_hit(p, tol as int) == Some(k),
            decreases n - i,
        {
            if self.wins(i, p, tol) {
                return Some(i);
            }
            i = i + 1;
        }
        proof {
            assert forall|roots: Seq<real>| #[trigger]
                self@.roots_of(p, roots) implies !(exists|j: int|
                self@.active_hit(j, p, tol as int)) by {
                if exists|j: int| self@.active_hit(j, p, tol as int) {
                    law_some_hit_is_picked(self@, p, tol as int, roots);
                    let b = self@.best_hit(p, tol as int).unwrap();
                    assert(self@.is_best_hit(b, p, tol as int));
                    assert(0 <= b < n);
                }
            }
        }
        None
    }

    /// Handles a click at `p` with the selection tool: picks the shape that
    /// [`SketchStore::hit_test`] finds, in place of the one picked before.
    /// A click that hits nothing leaves no shape picked.
    pub fn select_at(&mut self, p: Point, tol: u32) -> (r: Option<usize>)
        ensures
            final(self)@ == old(self)@.select(p, tol as int),
            index_view(r) == final(self)@.selected,
            final(self)@.wf(),
    {
        let hit: Option<usize> = self.hit_test(p, tol);
        self.selected = hit;
        hit
    }

    /// Extrudes the picked shape by `distance` ticks and retires it.
    ///
    /// Nothing happens, and `None` is returned, when no shape is picked or the
    /// picked shape is retired already.
    pub fn extrude_selected(&mut self, distance: i32) -> (r: Option<Solid>)
        ensures
            r == old(self)@.extrusion(distance as int),
            final(self)@ == old(self)@.extrude(),
            old(self)@.wf() ==> final(self)@.wf(),
    {
        match self.selected {
            Some(i) => {
                if i < self.entries.len() && !self.entries[i].retired {
                    let primitive: Primitive = self.entries[i].primitive;
                    let solid: Solid = extrude(&primitive, distance);
                    self.entries.set(i, Entry { primitive, retired: true });
                    Some(solid)
                } else {
                    None
                }
            },
            None => None,
        }
    }
}

} // verus!
