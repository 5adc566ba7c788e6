//! The state of the move analysis at one point of a body: which places have moved.
use vstd::prelude::*;
use crate::names::{as_map, distinct_keys, has_key, key_index, lemma_key_at, NameMap, NameSet};
use crate::place::{place_view, prefix, Place, PlaceV};
use crate::span::{span_view, Span, SpanV};
use crate::text::{copy_texts, same_text, texts};
use crate::types::{Type, TypeV};

verus! {

/// Why a value moved.
#[derive(Debug, Clone, Copy, PartialEq, Eq, Structural)]
pub enum MoveCause {
    Other,
    ByValueReceiver,
}

/// A value that has moved out of a place.
#[derive(Debug, PartialEq, Eq)]
pub struct MoveRecord {
    pub place: Place,
    pub moved_span: Span,
    pub cause: MoveCause,
    /// Coarse shape of the value that moved.
    pub moved_type: String,
    /// Whether this move reached the current state around a loop's back edge. A loop-carried move is
    /// usually its own use, one iteration later, so the diagnostic has to say which iteration it means.
    pub from_previous_iteration: bool,
}

/// The value of a [`MoveRecord`] as a mathematical object.
pub ghost struct MoveRecordV {
    pub place: PlaceV,
    pub moved_span: SpanV,
    pub cause: MoveCause,
    pub moved_type: Seq<char>,
    pub from_previous_iteration: bool,
}

/// The view of a [`MoveRecord`].
pub open spec fn move_record_view(t: MoveRecord) -> MoveRecordV
    decreases t,
{
    MoveRecordV {
        place: place_view(t.place),
        moved_span: span_view(t.moved_span),
        cause: t.cause,
        moved_type: t.moved_type@,
        from_previous_iteration: t.from_previous_iteration,
    }
}

/// The views of a sequence of [`MoveRecord`] values.
pub open spec fn move_records_view(s: Seq<MoveRecord>) -> Seq<MoveRecordV>
    decreases s,
{
    Seq::new(s.len(), |i: int| if 0 <= i < s.len() { move_record_view(s[i]) } else { arbitrary() })
}

impl View for MoveRecord {
    type V = MoveRecordV;

    open spec fn view(&self) -> MoveRecordV {
        move_record_view(*self)
    }
}

impl Clone for MoveRecord {
    fn clone(&self) -> (r: Self)
        ensures
            r@ == self@,
    {
        self.copy()
    }
}

impl MoveRecord {
    /// A copy with the same view.
    pub fn copy(&self) -> (r: Self)
        ensures
            r@ == self@,
        decreases *self,
    {
        MoveRecord {
            place: self.place.copy(),
            moved_span: self.moved_span.copy(),
            cause: self.cause,
            moved_type: self.moved_type.clone(),
            from_previous_iteration: self.from_previous_iteration,
        }
    }
}

/// A copy of a list of [`MoveRecord`] values.
pub fn copy_move_records(v: &Vec<MoveRecord>) -> (r: Vec<MoveRecord>)
    ensures
        move_records_view(r@) == move_records_view(v@),
    decreases v@,
{
    let mut out: Vec<MoveRecord> = Vec::new();
    let mut i: usize = 0;
    while i < v.len()
        invariant
            i <= v.len(),
            out@.len() == i,
            forall|k: int| 0 <= k < i ==> move_record_view(#[trigger] out@[k]) == move_record_view(v@[k]),
        decreases v.len() - i,
    {
        out.push(v[i].copy());
        i += 1;
    }
    assert(move_records_view(out@) =~= move_records_view(v@));
    out
}
/// A move identified by where it happened, ignoring how it was reached.
pub open spec fn move_key(r: MoveRecordV) -> (PlaceV, Seq<char>, u32, u32) {
    (r.place, r.moved_span.filename, r.moved_span.line, r.moved_span.col)
}

/// The moves out of one binding.
#[derive(Debug)]
pub struct MoveRecords {
    pub list: Vec<MoveRecord>,
}

impl View for MoveRecords {
    type V = Seq<MoveRecordV>;

    open spec fn view(&self) -> Seq<MoveRecordV> {
        move_records_view(self.list@)
    }
}

/// Whether `r` records a move that the list already holds.
pub open spec fn has_move(s: Seq<MoveRecordV>, r: MoveRecordV) -> bool {
    exists|i: int|
        0 <= i < s.len() && (#[trigger] s[i]).place == r.place && s[i].moved_span == r.moved_span
}

/// Whether the list records a move of the whole binding.
pub open spec fn has_whole_move(s: Seq<MoveRecordV>) -> bool {
    exists|i: int| 0 <= i < s.len() && (#[trigger] s[i]).place.projections.len() == 0
}

/// The list with one more move: a known move changes nothing, a move of the whole binding
/// replaces the partial ones, and a partial move is dropped where the whole binding has moved.
pub open spec fn with_move(s: Seq<MoveRecordV>, r: MoveRecordV) -> Seq<MoveRecordV> {
    if has_move(s, r) {
        s
    } else if r.place.projections.len() == 0 {
        seq![r]
    } else if has_whole_move(s) {
        s
    } else {
        s.push(r)
    }
}

/// The list with the moves of `incoming` added one after the other.
pub open spec fn merged(s: Seq<MoveRecordV>, incoming: Seq<MoveRecordV>) -> Seq<MoveRecordV>
    decreases incoming.len(),
{
    if incoming.len() == 0 {
        s
    } else {
        with_move(merged(s, incoming.drop_last()), incoming.last())
    }
}

/// The moves of places that are not at or below `place`.
pub open spec fn outside(s: Seq<MoveRecordV>, place: PlaceV) -> Seq<MoveRecordV>
    decreases s.len(),
{
    if s.len() == 0 {
        s
    } else if prefix(place, s.last().place) {
        outside(s.drop_last(), place)
    } else {
        outside(s.drop_last(), place).push(s.last())
    }
}

/// The first move of a place at or above `place`.
pub open spec fn move_above(s: Seq<MoveRecordV>, place: PlaceV) -> Option<MoveRecordV>
    decreases s.len(),
{
    if s.len() == 0 {
        None
    } else if prefix(s[0].place, place) {
        Some(s[0])
    } else {
        move_above(s.skip(1), place)
    }
}

/// The first move of a place at, above or below `place`.
pub open spec fn move_touching(s: Seq<MoveRecordV>, place: PlaceV) -> Option<MoveRecordV>
    decreases s.len(),
{
    if s.len() == 0 {
        None
    } else if prefix(s[0].place, place) || prefix(place, s[0].place) {
        Some(s[0])
    } else {
        move_touching(s.skip(1), place)
    }
}

impl MoveRecords {
    fn new() -> (r: Self)
        ensures
            r@ == Seq::<MoveRecordV>::empty(),
    {
        let r = MoveRecords { list: Vec::new() };
        assert(r@ =~= Seq::<MoveRecordV>::empty());
        r
    }

    fn copy(&self) -> (r: Self)
        ensures
            r@ == self@,
    {
        let list: Vec<MoveRecord> = copy_move_records(&self.list);
        MoveRecords { list }
    }

    fn push(&mut self, record: MoveRecord)
        ensures
            final(self)@ == old(self)@.push(record@),
    {
        self.list.push(record);
        assert(self@ =~= old(self)@.push(record@));
    }

    fn add_move(&mut self, record: &MoveRecord)
        ensures
            final(self)@ == with_move(old(self)@, record@),
    {
        let ghost views = self@;
        assert(views.len() == self.list@.len());
        let mut known: bool = false;
        let mut whole: bool = false;
        let mut i: usize = 0;
        while i < self.list.len()
            invariant
                i <= self.list@.len(),
                views == move_records_view(self.list@),
                views.len() == self.list@.len(),
                known == exists|k: int|
                    0 <= k < i && (#[trigger] views[k]).place == record@.place
                        && views[k].moved_span == record@.moved_span,
                whole == exists|k: int|
                    0 <= k < i && (#[trigger] views[k]).place.projections.len() == 0,
            decreases self.list@.len() - i,
        {
            let ghost before_known = known;
            let ghost before_whole = whole;
            assert(views[i as int] == move_record_view(self.list@[i as int]));
            assert(views[i as int].place.projections.len()
                == self.list@[i as int].place.projections@.len());
            let existing: &MoveRecord = &self.list[i];
            if existing.place.same(&record.place) && existing.moved_span.same(&record.moved_span) {
                known = true;
            }
            if existing.place.projections.len() == 0 {
                whole = true;
            }
            i += 1;
        }
        assert(known == has_move(views, record@));
        assert(whole == has_whole_move(views));
        assert(record@.place.projections.len() == record.place.projections@.len());
        if known {
            return;
        }
        if record.place.projections.len() == 0 {
            let mut list: Vec<MoveRecord> = Vec::new();
            list.push(record.copy());
            self.list = list;
            assert(self@ =~= seq![record@]);
            return;
        }
        if whole {
            return;
        }
        self.push(record.copy());
    }

    fn merge_from(&mut self, incoming: &MoveRecords)
        ensures
            final(self)@ == merged(old(self)@, incoming@),
    {
        let ghost views = incoming@;
        let ghost start = self@;
        assert(views.len() == incoming.list@.len());
        let mut i: usize = 0;
        while i < incoming.list.len()
            invariant
                i <= incoming.list@.len(),
                views == move_records_view(incoming.list@),
                views.len() == incoming.list@.len(),
                self@ == merged(start, views.take(i as int)),
            decreases incoming.list@.len() - i,
        {
            assert(views.take(i + 1).drop_last() =~= views.take(i as int));
            assert(views.take(i + 1).last() == move_record_view(incoming.list@[i as int]));
            self.add_move(&incoming.list[i]);
            i += 1;
        }
        assert(views.take(i as int) =~= views);
    }

    fn keep_outside(&self, place: &Place) -> (r: Self)
        ensures
            r@ == outside(self@, place@),
    {
        let ghost views = self@;
        assert(views.len() == self.list@.len());
        let mut kept: MoveRecords = MoveRecords::new();
        let mut i: usize = 0;
        while i < self.list.len()
            invariant
                i <= self.list@.len(),
                views == move_records_view(self.list@),
                views.len() == self.list@.len(),
                kept@ == outside(views.take(i as int), place@),
            decreases self.list@.len() - i,
        {
            assert(views.take(i + 1).drop_last() =~= views.take(i as int));
            assert(views.take(i + 1).last() == move_record_view(self.list@[i as int]));
            if !place.is_prefix_of(&self.list[i].place) {
                kept.push(self.list[i].copy());
            }
            i += 1;
        }
        assert(views.take(i as int) =~= views);
        kept
    }

    fn above(&self, place: &Place) -> (r: Option<&MoveRecord>)
        ensures
            match r {
                Some(record) => move_above(self@, place@) == Some(record@),
                None => move_above(self@, place@) is None,
            },
    {
        let ghost views = self@;
        assert(views.len() == self.list@.len());
        assert(views.skip(0) =~= views);
        let mut i: usize = 0;
        while i < self.list.len()
            invariant
                i <= self.list@.len(),
                views == move_records_view(self.list@),
                views.len() == self.list@.len(),
                move_above(views, place@) == move_above(views.skip(i as int), place@),
            decreases self.list@.len() - i,
        {
            assert(views.skip(i as int)[0] == move_record_view(self.list@[i as int]));
            assert(views.skip(i as int).skip(1) =~= views.skip(i + 1));
            if self.list[i].place.is_prefix_of(place) {
                return Some(&self.list[i]);
            }
            i += 1;
        }
        None
    }

    fn touching(&self, place: &Place) -> (r: Option<&MoveRecord>)
        ensures
            match r {
                Some(record) => move_touching(self@, place@) == Some(record@),
                None => move_touching(self@, place@) is None,
            },
    {
        let ghost views = self@;
        assert(views.len() == self.list@.len());
        assert(views.skip(0) =~= views);
        let mut i: usize = 0;
        while i < self.list.len()
            invariant
                i <= self.list@.len(),
                views == move_records_view(self.list@),
                views.len() == self.list@.len(),
                move_touching(views, place@) == move_touching(views.skip(i as int), place@),
            decreases self.list@.len() - i,
        {
            assert(views.skip(i as int)[0] == move_record_view(self.list@[i as int]));
            assert(views.skip(i as int).skip(1) =~= views.skip(i + 1));
            if self.list[i].place.is_prefix_of(place) || place.is_prefix_of(&self.list[i].place) {
                return Some(&self.list[i]);
            }
            i += 1;
        }
        None
    }
}

/// The state of the analysis as a mathematical object.
pub ghost struct FlowV {
    /// The moves out of each binding.
    pub moved: Map<Seq<char>, Seq<MoveRecordV>>,
    pub binding_types: Map<Seq<char>, TypeV>,
    /// Bindings that stand for an element of a borrowed array view.
    pub borrowed: Set<Seq<char>>,
    /// The names that are bound, and not behind another of the same name since.
    pub in_sight: Set<Seq<char>>,
    /// The names bound in each open scope, innermost last.
    pub scopes: Seq<Seq<Seq<char>>>,
    /// Whether the path walked so far has left the enclosing loop iteration.
    pub diverged: bool,
}

/// The state in which nothing is bound and nothing has moved.
pub open spec fn empty_flow() -> FlowV {
    FlowV {
        moved: Map::empty(),
        binding_types: Map::empty(),
        borrowed: Set::empty(),
        in_sight: Set::empty(),
        scopes: Seq::empty(),
        diverged: false,
    }
}

/// The moves out of a binding.
pub open spec fn moves_of(f: FlowV, root: Seq<char>) -> Seq<MoveRecordV> {
    if f.moved.dom().contains(root) {
        f.moved[root]
    } else {
        Seq::empty()
    }
}

/// The state without anything known of a name.
pub open spec fn forget(f: FlowV, name: Seq<char>) -> FlowV {
    FlowV {
        moved: f.moved.remove(name),
        binding_types: f.binding_types.remove(name),
        borrowed: f.borrowed.remove(name),
        in_sight: f.in_sight.remove(name),
        ..f
    }
}

/// [`forget`] for each of the names.
pub open spec fn forget_all(f: FlowV, names: Seq<Seq<char>>) -> FlowV
    decreases names.len(),
{
    if names.len() == 0 {
        f
    } else {
        forget(forget_all(f, names.drop_last()), names.last())
    }
}

/// The state after a scope was opened.
pub open spec fn push_scope(f: FlowV) -> FlowV {
    FlowV { scopes: f.scopes.push(Seq::empty()), ..f }
}

/// The state after the innermost scope was closed: its names are forgotten.
pub open spec fn pop_scope(f: FlowV) -> FlowV {
    if f.scopes.len() == 0 {
        f
    } else {
        forget_all(FlowV { scopes: f.scopes.drop_last(), ..f }, f.scopes.last())
    }
}

/// The state after a name was bound afresh in the innermost scope.
pub open spec fn bind(f: FlowV, name: Seq<char>) -> FlowV {
    let g = forget(
        if f.scopes.len() == 0 {
            f
        } else {
            FlowV { scopes: f.scopes.drop_last().push(f.scopes.last().push(name)), ..f }
        },
        name,
    );
    FlowV { in_sight: g.in_sight.insert(name), ..g }
}

/// [`bind`] for each of the names.
pub open spec fn bind_all(f: FlowV, names: Seq<Seq<char>>) -> FlowV
    decreases names.len(),
{
    if names.len() == 0 {
        f
    } else {
        bind(bind_all(f, names.drop_last()), names.last())
    }
}

/// The state after a name was bound with its type.
pub open spec fn bind_typed(f: FlowV, name: Seq<char>, ty: TypeV) -> FlowV {
    let g = bind(f, name);
    FlowV { binding_types: g.binding_types.insert(name, ty), ..g }
}

/// The state after a name was bound to an element of a borrowed array view.
pub open spec fn bind_borrowed(f: FlowV, name: Seq<char>, ty: TypeV) -> FlowV {
    let g = bind_typed(f, name, ty);
    FlowV { borrowed: g.borrowed.insert(name), ..g }
}

/// The state after a value moved out of a place. Moving the whole binding subsumes every partial
/// move of it; moving a part subsumes the moves below that part.
pub open spec fn record_move(
    f: FlowV,
    place: PlaceV,
    span: SpanV,
    cause: MoveCause,
    moved_type: Seq<char>,
) -> FlowV {
    let kept = if place.projections.len() == 0 {
        Seq::empty()
    } else {
        outside(moves_of(f, place.root), place)
    };
    let record = MoveRecordV {
        place,
        moved_span: span,
        cause,
        moved_type,
        from_previous_iteration: false,
    };
    FlowV { moved: f.moved.insert(place.root, kept.push(record)), ..f }
}

/// The state in which either of two paths may have been taken: what moved on one of them has
/// moved.
pub open spec fn union(a: FlowV, b: FlowV) -> FlowV {
    FlowV {
        moved: Map::new(
            |k: Seq<char>| a.moved.dom().contains(k) || b.moved.dom().contains(k),
            |k: Seq<char>| merged(moves_of(a, k), moves_of(b, k)),
        ),
        ..a
    }
}

/// The state with the moves out of the bindings only that are not in sight in another state.
pub open spec fn unseen(f: FlowV, other: FlowV) -> FlowV {
    FlowV {
        moved: Map::new(
            |k: Seq<char>| f.moved.dom().contains(k) && !other.in_sight.contains(k),
            |k: Seq<char>| f.moved[k],
        ),
        ..f
    }
}

/// What has moved at the end of a path that started from `before`. Where the path lost sight of a
/// binding, as it does behind another one of the same name, what had moved out of it before still
/// has.
pub open spec fn along(before: FlowV, path: FlowV) -> FlowV {
    union(unseen(before, path), path)
}

/// [`forget_all`] for the names of each of the scopes.
pub open spec fn forget_scopes(f: FlowV, s: Seq<Seq<Seq<char>>>) -> FlowV
    decreases s.len(),
{
    if s.len() == 0 {
        f
    } else {
        forget_all(forget_scopes(f, s.drop_last()), s.last())
    }
}

/// The state without anything known of the names that are bound past the first `depth` scopes.
pub open spec fn outer(f: FlowV, depth: nat) -> FlowV {
    if depth <= f.scopes.len() {
        forget_scopes(f, f.scopes.skip(depth as int))
    } else {
        f
    }
}


/// Whether the state records an `i`-th move out of `root`.
pub open spec fn records(m: Map<Seq<char>, Seq<MoveRecordV>>, root: Seq<char>, i: int) -> bool {
    m.dom().contains(root) && 0 <= i < m[root].len()
}

/// The moves that the state records, identified by where they happened.
pub open spec fn fingerprint(m: Map<Seq<char>, Seq<MoveRecordV>>) -> Set<
    (PlaceV, Seq<char>, u32, u32),
> {
    Set::new(
        |key: (PlaceV, Seq<char>, u32, u32)|
            exists|root: Seq<char>, i: int|
                #[trigger] records(m, root, i) && move_key(m[root][i]) == key,
    )
}

/// A move that is marked as loop-carried where it is not among `known`.
pub open spec fn carried_record(
    r: MoveRecordV,
    known: Set<(PlaceV, Seq<char>, u32, u32)>,
) -> MoveRecordV {
    if known.contains(move_key(r)) {
        r
    } else {
        MoveRecordV { from_previous_iteration: true, ..r }
    }
}

/// The state with every move that `before` does not know marked as loop-carried.
pub open spec fn carried(f: FlowV, before: FlowV) -> FlowV {
    FlowV {
        moved: Map::new(
            |k: Seq<char>| f.moved.dom().contains(k),
            |k: Seq<char>|
                f.moved[k].map_values(|r: MoveRecordV| carried_record(r, fingerprint(before.moved))),
        ),
        ..f
    }
}

/// The state after a write to `place`: the place and everything below it are valid again.
pub open spec fn reinitialized(f: FlowV, place: PlaceV) -> FlowV {
    if !f.moved.dom().contains(place.root) {
        f
    } else {
        let kept = outside(f.moved[place.root], place);
        if kept.len() == 0 {
            FlowV { moved: f.moved.remove(place.root), ..f }
        } else {
            FlowV { moved: f.moved.insert(place.root, kept), ..f }
        }
    }
}

/// The names of each scope.
pub open spec fn scopes_view(s: Seq<Vec<String>>) -> Seq<Seq<Seq<char>>> {
    Seq::new(s.len(), |i: int| texts(s[i]@))
}

/// The state of the analysis at one point of a body.
pub struct FlowState {
    pub moved: NameMap<MoveRecords>,
    pub binding_types: NameMap<Type>,
    /// Loop bindings sourced from a `T[]` borrowed view. They may be read or
    /// borrowed, but a non-Copy value cannot be moved out through the binding.
    pub borrowed_array_bindings: NameSet,
    /// Bindings that no other of the same name has hidden since they were made.
    pub in_sight: NameSet,
    pub scopes: Vec<Vec<String>>,
    /// Whether the path walked so far has left the enclosing loop iteration
    /// through `break`, `continue`, or `return`. Only the loop driver reads it,
    /// to decide whether this state reaches the back edge; joining two states
    /// leaves it alone.
    pub diverged: bool,
}

impl View for FlowState {
    type V = FlowV;

    open spec fn view(&self) -> FlowV {
        FlowV {
            moved: self.moved@,
            binding_types: self.binding_types@,
            borrowed: self.borrowed_array_bindings@,
            in_sight: self.in_sight@,
            scopes: scopes_view(self.scopes@),
            diverged: self.diverged,
        }
    }
}

impl FlowState {
    /// No binding occurs twice in a table.
    pub open spec fn wf(&self) -> bool {
        self.moved.wf() && self.binding_types.wf()
    }

    /// The state in which nothing is bound and nothing has moved.
    pub fn new() -> (r: Self)
        ensures
            r.wf(),
            r@ == empty_flow(),
    {
        let r = FlowState {
            moved: NameMap::new(),
            binding_types: NameMap::new(),
            borrowed_array_bindings: NameSet::new(),
            in_sight: NameSet::new(),
            scopes: Vec::new(),
            diverged: false,
        };
        assert(r@.scopes =~= Seq::empty());
        r
    }

    /// A copy of the state.
    pub fn copy(&self) -> (r: Self)
        requires
            self.wf(),
        ensures
            r.wf(),
            r@ == self@,
    {
        let moved: NameMap<MoveRecords> = Self::copy_moves(&self.moved);
        let binding_types: NameMap<Type> = Self::copy_binding_types(&self.binding_types);
        let mut scopes: Vec<Vec<String>> = Vec::new();
        let mut i: usize = 0;
        while i < self.scopes.len()
            invariant
                i <= self.scopes@.len(),
                scopes@.len() == i,
                forall|k: int| 0 <= k < i ==> texts((#[trigger] scopes@[k])@) == texts(self.scopes@[k]@),
            decreases self.scopes@.len() - i,
        {
            scopes.push(copy_texts(&self.scopes[i]));
            i += 1;
        }
        assert(scopes_view(scopes@) =~= scopes_view(self.scopes@));
        FlowState {
            moved,
            binding_types,
            borrowed_array_bindings: self.borrowed_array_bindings.copy(),
            in_sight: self.in_sight.copy(),
            scopes,
            diverged: self.diverged,
        }
    }

    fn copy_moves(m: &NameMap<MoveRecords>) -> (r: NameMap<MoveRecords>)
        requires
            m.wf(),
        ensures
            r.wf(),
            r@ == m@,
    {
        let mut entries: Vec<(String, MoveRecords)> = Vec::new();
        let mut i: usize = 0;
        while i < m.entries.len()
            invariant
                i <= m.entries@.len(),
                entries@.len() == i,
                forall|k: int|
                    0 <= k < i ==> (#[trigger] entries@[k]).0@ == m.entries@[k].0@ && entries@[k].1@
                        == m.entries@[k].1@,
            decreases m.entries@.len() - i,
        {
            entries.push((m.entries[i].0.clone(), m.entries[i].1.copy()));
            i += 1;
        }
        proof {
            lemma_same_entries(m.entries@, entries@);
        }
        NameMap { entries }
    }

    fn copy_binding_types(m: &NameMap<Type>) -> (r: NameMap<Type>)
        requires
            m.wf(),
        ensures
            r.wf(),
            r@ == m@,
    {
        let mut entries: Vec<(String, Type)> = Vec::new();
        let mut i: usize = 0;
        while i < m.entries.len()
            invariant
                i <= m.entries@.len(),
                entries@.len() == i,
                forall|k: int|
                    0 <= k < i ==> (#[trigger] entries@[k]).0@ == m.entries@[k].0@ && entries@[k].1@
                        == m.entries@[k].1@,
            decreases m.entries@.len() - i,
        {
            entries.push((m.entries[i].0.clone(), m.entries[i].1.copy()));
            i += 1;
        }
        proof {
            lemma_same_entries(m.entries@, entries@);
        }
        NameMap { entries }
    }

    /// Open a scope.
    pub fn push_scope(&mut self)
        requires
            old(self).wf(),
        ensures
            final(self).wf(),
            final(self)@ == push_scope(old(self)@),
    {
        self.scopes.push(Vec::new());
        proof {
            let n = old(self).scopes@.len() as int;
            assert(texts(self.scopes@[n]@) =~= Seq::empty());
            assert(scopes_view(self.scopes@) =~= scopes_view(old(self).scopes@).push(Seq::empty()));
        }
    }

    fn forget(&mut self, name: &str)
        requires
            old(self).wf(),
        ensures
            final(self).wf(),
            final(self)@ == forget(old(self)@, name@),
    {
        self.moved.remove(name);
        self.binding_types.remove(name);
        self.borrowed_array_bindings.remove(name);
        self.in_sight.remove(name);
    }

    /// Close the innermost scope and forget its names.
    pub fn pop_scope(&mut self)
        requires
            old(self).wf(),
        ensures
            final(self).wf(),
            final(self)@ == pop_scope(old(self)@),
    {
        assert(self@.scopes.len() == self.scopes@.len());
        match self.scopes.pop() {
            Some(bindings) => {
                let ghost names = texts(bindings@);
                let ghost start = self@;
                proof {
                    let n = old(self).scopes@.len() - 1;
                    assert(old(self).scopes@[n] == bindings);
                    assert(scopes_view(self.scopes@) =~= old(self)@.scopes.drop_last());
                    assert(names == old(self)@.scopes.last());
                }
                let mut i: usize = 0;
                while i < bindings.len()
                    invariant
                        i <= bindings@.len(),
                        names == texts(bindings@),
                        self.wf(),
                        self@ == forget_all(start, names.take(i as int)),
                    decreases bindings@.len() - i,
                {
                    assert(names.take(i + 1).drop_last() =~= names.take(i as int));
                    assert(names.take(i + 1).last() == bindings@[i as int]@);
                    self.forget(bindings[i].as_str());
                    i += 1;
                }
                assert(names.take(i as int) =~= names);
            },
            None => {},
        }
    }

    /// Bind a name afresh in the innermost scope.
    pub fn bind(&mut self, name: &str)
        requires
            old(self).wf(),
        ensures
            final(self).wf(),
            final(self)@ == bind(old(self)@, name@),
    {
        assert(self@.scopes.len() == self.scopes@.len());
        let ghost before = self.scopes@;
        match self.scopes.pop() {
            Some(top) => {
                let mut scope: Vec<String> = top;
                scope.push(name.to_owned());
                self.scopes.push(scope);
                proof {
                    let n = before.len() - 1;
                    assert(texts(scope@) =~= texts(before[n]@).push(name@));
                    assert(scopes_view(self.scopes@) =~= scopes_view(before).drop_last().push(
                        scopes_view(before).last().push(name@),
                    ));
                }
            },
            None => {},
        }
        self.forget(name);
        self.in_sight.insert(name);
    }

    /// Bind a name with its type.
    pub fn bind_typed(&mut self, name: &str, ty: &Type)
        requires
            old(self).wf(),
        ensures
            final(self).wf(),
            final(self)@ == bind_typed(old(self)@, name@, ty@),
    {
        self.bind(name);
        self.binding_types.insert(name, ty.copy());
    }

    /// Bind a name to an element of a borrowed array view.
    pub fn bind_borrowed_array_element(&mut self, name: &str, ty: &Type)
        requires
            old(self).wf(),
        ensures
            final(self).wf(),
            final(self)@ == bind_borrowed(old(self)@, name@, ty@),
    {
        self.bind_typed(name, ty);
        self.borrowed_array_bindings.insert(name);
    }

    /// Whether a place lies in a binding of a borrowed array element.
    pub fn is_borrowed_array_element(&self, place: &Place) -> (r: bool)
        ensures
            r == self@.borrowed.contains(place@.root),
    {
        self.borrowed_array_bindings.contains(place.root())
    }

    /// The type a name was bound with.
    pub fn binding_type(&self, name: &str) -> (r: Option<&Type>)
        requires
            self.wf(),
        ensures
            match r {
                Some(ty) => self@.binding_types.dom().contains(name@) && self@.binding_types[name@]
                    == ty@,
                None => !self@.binding_types.dom().contains(name@),
            },
    {
        self.binding_types.get(name)
    }

    /// Record that a value moved out of a place.
    pub fn record_move(
        &mut self,
        place: Place,
        moved_span: Span,
        cause: MoveCause,
        moved_type: String,
    )
        requires
            old(self).wf(),
        ensures
            final(self).wf(),
            final(self)@ == record_move(old(self)@, place@, moved_span@, cause, moved_type@),
    {
        let root: String = place.root().to_owned();
        assert(place@.projections.len() == place.projections@.len());
        let existing: Option<MoveRecords> = self.moved.take(root.as_str());
        let mut kept: MoveRecords = if place.projections().len() == 0 {
            // Moving the whole value subsumes every partial move of it.
            MoveRecords::new()
        } else {
            match existing {
                Some(records) => records.keep_outside(&place),
                None => MoveRecords::new(),
            }
        };
        kept.push(
            MoveRecord { place, moved_span, cause, moved_type, from_previous_iteration: false },
        );
        self.moved.insert(root.as_str(), kept);
        assert(self@.moved =~= old(self)@.moved.insert(root@, kept@));
    }

    fn knows_move(&self, record: &MoveRecord) -> (r: bool)
        requires
            self.wf(),
        ensures
            r == fingerprint(self@.moved).contains(move_key(record@)),
    {
        let ghost key = move_key(record@);
        let ghost m = self@.moved;
        let mut i: usize = 0;
        while i < self.moved.entries.len()
            invariant
                self.wf(),
                m == self@.moved,
                key == move_key(record@),
                i <= self.moved.entries@.len(),
                forall|e: int, j: int|
                    #![trigger self.moved.entries@[e].1@[j]]
                    0 <= e < i && 0 <= j < self.moved.entries@[e].1@.len() ==> move_key(
                        self.moved.entries@[e].1@[j],
                    ) != key,
            decreases self.moved.entries@.len() - i,
        {
            let list: &Vec<MoveRecord> = &self.moved.entries[i].1.list;
            let ghost views = self.moved.entries@[i as int].1@;
            assert(views.len() == list@.len());
            let mut j: usize = 0;
            while j < list.len()
                invariant
                    self.wf(),
                    m == self@.moved,
                    key == move_key(record@),
                    i < self.moved.entries@.len(),
                    *list == self.moved.entries@[i as int].1.list,
                    views == self.moved.entries@[i as int].1@,
                    views.len() == list@.len(),
                    j <= list@.len(),
                    forall|q: int| 0 <= q < j ==> move_key(#[trigger] views[q]) != key,
                decreases list@.len() - j,
            {
                assert(views[j as int] == move_record_view(list@[j as int]));
                let known: &MoveRecord = &list[j];
                if known.place.same(&record.place) && same_text(
                    known.moved_span.filename.as_str(),
                    record.moved_span.filename.as_str(),
                ) && known.moved_span.line == record.moved_span.line && known.moved_span.col
                    == record.moved_span.col {
                    proof {
                        lemma_key_at(self.moved.entries@, i as int);
                        let root = self.moved.entries@[i as int].0@;
                        assert(records(m, root, j as int));
                        assert(move_key(m[root][j as int]) == key);
                    }
                    return true;
                }
                assert(move_key(views[j as int]) != key);
                j += 1;
            }
            i += 1;
        }
        proof {
            assert forall|root: Seq<char>, j: int| #[trigger] records(m, root, j) implies move_key(
                m[root][j],
            ) != key by {
                let e = key_index(self.moved.entries@, root);
                assert(has_key(self.moved.entries@, root));
                assert(m[root] == self.moved.entries@[e].1@);
            }
        }
        false
    }

    fn covers(&self, other: &Self) -> (r: bool)
        requires
            self.wf(),
            other.wf(),
        ensures
            r == fingerprint(other@.moved).subset_of(fingerprint(self@.moved)),
    {
        let ghost mine = fingerprint(self@.moved);
        let ghost m = other@.moved;
        let mut i: usize = 0;
        while i < other.moved.entries.len()
            invariant
                self.wf(),
                other.wf(),
                mine == fingerprint(self@.moved),
                m == other@.moved,
                i <= other.moved.entries@.len(),
                forall|e: int, j: int|
                    #![trigger other.moved.entries@[e].1@[j]]
                    0 <= e < i && 0 <= j < other.moved.entries@[e].1@.len() ==> mine.contains(
                        move_key(other.moved.entries@[e].1@[j]),
                    ),
            decreases other.moved.entries@.len() - i,
        {
            let list: &Vec<MoveRecord> = &other.moved.entries[i].1.list;
            let ghost views = other.moved.entries@[i as int].1@;
            assert(views.len() == list@.len());
            let mut j: usize = 0;
            while j < list.len()
                invariant
                    self.wf(),
                    other.wf(),
                    mine == fingerprint(self@.moved),
                    m == other@.moved,
                    i < other.moved.entries@.len(),
                    *list == other.moved.entries@[i as int].1.list,
                    views == other.moved.entries@[i as int].1@,
                    views.len() == list@.len(),
                    j <= list@.len(),
                    forall|q: int| 0 <= q < j ==> mine.contains(move_key(#[trigger] views[q])),
                decreases list@.len() - j,
            {
                assert(views[j as int] == move_record_view(list@[j as int]));
                if !self.knows_move(&list[j]) {
                    proof {
                        lemma_key_at(other.moved.entries@, i as int);
                        let root = other.moved.entries@[i as int].0@;
                        assert(records(m, root, j as int));
                        assert(fingerprint(m).contains(move_key(m[root][j as int])));
                    }
                    return false;
                }
                j += 1;
            }
            i += 1;
        }
        proof {
            assert forall|key: (PlaceV, Seq<char>, u32, u32)|
                fingerprint(m).contains(key) implies mine.contains(key) by {
                let (root, j) = choose|root: Seq<char>, j: int|
                    #[trigger] records(m, root, j) && move_key(m[root][j]) == key;
                let e = key_index(other.moved.entries@, root);
                assert(has_key(other.moved.entries@, root));
                assert(m[root] == other.moved.entries@[e].1@);
                assert(mine.contains(move_key(other.moved.entries@[e].1@[j])));
            }
        }
        true
    }

    /// Whether two states record the same moves. The order in which the moves were recorded, and
    /// how they were reached, does not matter.
    pub fn same_moves(&self, other: &Self) -> (r: bool)
        requires
            self.wf(),
            other.wf(),
        ensures
            r == (fingerprint(self@.moved) == fingerprint(other@.moved)),
    {
        let r: bool = self.covers(other) && other.covers(self);
        assert(r ==> fingerprint(self@.moved) =~= fingerprint(other@.moved));
        r
    }

    /// Mark every move that was not already in `before` as loop-carried. Called
    /// once a loop has folded its back edge into the state the body starts from:
    /// anything new got there by completing an iteration.
    pub fn mark_moves_as_carried_from(&mut self, before: &Self)
        requires
            old(self).wf(),
            before.wf(),
        ensures
            final(self).wf(),
            final(self)@ == carried(old(self)@, before@),
    {
        let ghost known = fingerprint(before@.moved);
        let mut entries: Vec<(String, MoveRecords)> = Vec::new();
        let mut i: usize = 0;
        while i < self.moved.entries.len()
            invariant
                self.wf(),
                before.wf(),
                known == fingerprint(before@.moved),
                i <= self.moved.entries@.len(),
                entries@.len() == i,
                forall|k: int|
                    0 <= k < i ==> (#[trigger] entries@[k]).0@ == self.moved.entries@[k].0@
                        && entries@[k].1@ == self.moved.entries@[k].1@.map_values(
                        |r: MoveRecordV| carried_record(r, known),
                    ),
            decreases self.moved.entries@.len() - i,
        {
            let marked: MoveRecords = Self::mark_records(&self.moved.entries[i].1, before);
            entries.push((self.moved.entries[i].0.clone(), marked));
            i += 1;
        }
        let ghost old_entries = self.moved.entries@;
        proof {
            lemma_same_keys(old_entries, entries@);
            let expected = carried(self@, before@).moved;
            assert forall|k: Seq<char>| #[trigger]
                as_map(entries@).dom().contains(k) implies as_map(entries@)[k] == expected[k] by {
                let e = key_index(entries@, k);
                assert(entries@[e].0@ == k);
                lemma_key_at(entries@, e);
                lemma_key_at(old_entries, e);
            }
            assert(as_map(entries@) =~= expected);
        }
        self.moved = NameMap { entries };
    }

    fn mark_records(records: &MoveRecords, before: &Self) -> (r: MoveRecords)
        requires
            before.wf(),
        ensures
            r@ == records@.map_values(
                |r: MoveRecordV| carried_record(r, fingerprint(before@.moved)),
            ),
    {
        let ghost known = fingerprint(before@.moved);
        let ghost views = records@;
        assert(views.len() == records.list@.len());
        let mut out: MoveRecords = MoveRecords::new();
        let mut i: usize = 0;
        while i < records.list.len()
            invariant
                before.wf(),
                known == fingerprint(before@.moved),
                views == records@,
                views.len() == records.list@.len(),
                i <= records.list@.len(),
                out@ == views.take(i as int).map_values(|r: MoveRecordV| carried_record(r, known)),
            decreases records.list@.len() - i,
        {
            let ghost f = |r: MoveRecordV| carried_record(r, known);
            assert(views[i as int] == move_record_view(records.list@[i as int]));
            let mut record: MoveRecord = records.list[i].copy();
            if !before.knows_move(&records.list[i]) {
                record.from_previous_iteration = true;
            }
            assert(record@ == carried_record(views[i as int], known));
            out.push(record);
            assert(views.take(i + 1).map_values(f) =~= views.take(i as int).map_values(f).push(
                f(views[i as int]),
            ));
            i += 1;
        }
        assert(views.take(i as int) =~= views);
        out
    }

    /// The first recorded move of a place at or above `place`.
    pub fn moved_record_for_descendant_use(&self, place: &Place) -> (r: Option<&MoveRecord>)
        requires
            self.wf(),
        ensures
            match r {
                Some(record) => move_above(moves_of(self@, place@.root), place@) == Some(record@),
                None => move_above(moves_of(self@, place@.root), place@) is None,
            },
    {
        match self.moved.get(place.root()) {
            Some(records) => records.above(place),
            None => None,
        }
    }

    /// The first recorded move of a place at, above or below `place`.
    pub fn moved_record_for_whole_use(&self, place: &Place) -> (r: Option<&MoveRecord>)
        requires
            self.wf(),
        ensures
            match r {
                Some(record) => move_touching(moves_of(self@, place@.root), place@) == Some(
                    record@,
                ),
                None => move_touching(moves_of(self@, place@.root), place@) is None,
            },
    {
        match self.moved.get(place.root()) {
            Some(records) => records.touching(place),
            None => None,
        }
    }

    /// Add the moves of another path to this state.
    pub fn union_from(&mut self, other: &Self)
        requires
            old(self).wf(),
            other.wf(),
        ensures
            final(self).wf(),
            final(self)@ == union(old(self)@, other@),
    {
        let ghost start = self@.moved;
        let ghost entries = other.moved.entries@;
        let mut i: usize = 0;
        while i < other.moved.entries.len()
            invariant
                self.wf(),
                other.wf(),
                entries == other.moved.entries@,
                i <= entries.len(),
                self@ == (FlowV { moved: joined_moves(start, entries.take(i as int)), ..old(self)@ }),
            decreases entries.len() - i,
        {
            assert(entries.take(i + 1).drop_last() =~= entries.take(i as int));
            assert(entries.take(i + 1).last() == entries[i as int]);
            let ghost before = self@.moved;
            let root: &str = other.moved.entries[i].0.as_str();
            let mut records: MoveRecords = match self.moved.take(root) {
                Some(existing) => existing,
                None => MoveRecords::new(),
            };
            records.merge_from(&other.moved.entries[i].1);
            self.moved.insert(root, records);
            assert(self@.moved =~= before.insert(root@, records@));
            i += 1;
        }
        proof {
            assert(entries.take(i as int) =~= entries);
            lemma_joined_moves(old(self)@, entries);
            let m = joined_moves(start, entries);
            let expected = union(old(self)@, other@).moved;
            assert forall|k: Seq<char>| #[trigger] m.dom().contains(k) implies m[k]
                == expected[k] by {
                if has_key(entries, k) {
                    assert(other@.moved.dom().contains(k));
                    assert(moves_of(other@, k) == as_map(entries)[k]);
                } else {
                    assert(moves_of(other@, k) =~= Seq::empty());
                    assert(merged(moves_of(old(self)@, k), Seq::empty()) == moves_of(
                        old(self)@,
                        k,
                    ));
                }
            }
            assert forall|k: Seq<char>| m.dom().contains(k) <==> #[trigger] expected.dom().contains(
                k,
            ) by {
                assert(other@.moved.dom().contains(k) <==> has_key(entries, k));
            }
            assert(m =~= expected);
        }
    }

    /// Keep the moves out of the bindings only that are not in sight in another state.
    fn keep_unseen(&mut self, other: &Self)
        requires
            old(self).wf(),
            other.wf(),
        ensures
            final(self).wf(),
            final(self)@ == unseen(old(self)@, other@),
    {
        let ghost start = self@.moved;
        let ghost names = other.in_sight.items@;
        let mut i: usize = 0;
        while i < other.in_sight.items.len()
            invariant
                self.wf(),
                other.wf(),
                names == other.in_sight.items@,
                i <= names.len(),
                self@ == (FlowV { moved: self@.moved, ..old(self)@ }),
                forall|k: Seq<char>| #[trigger]
                    self@.moved.dom().contains(k) <==> start.dom().contains(k) && forall|j: int|
                        0 <= j < i ==> (#[trigger] names[j])@ != k,
                forall|k: Seq<char>| #[trigger]
                    self@.moved.dom().contains(k) ==> self@.moved[k] == start[k],
            decreases names.len() - i,
        {
            let ghost before = self@.moved;
            let ghost last = names[i as int]@;
            self.moved.remove(other.in_sight.items[i].as_str());
            assert forall|k: Seq<char>| #[trigger] self@.moved.dom().contains(k)
                <==> start.dom().contains(k) && forall|j: int|
                0 <= j < i + 1 ==> (#[trigger] names[j])@ != k by {
                assert(self@.moved.dom().contains(k) <==> before.dom().contains(k) && k != last);
                if before.dom().contains(k) && k != last {
                    assert forall|j: int| 0 <= j < i + 1 implies (#[trigger] names[j])@ != k by {}
                }
                if forall|j: int| 0 <= j < i + 1 ==> (#[trigger] names[j])@ != k {
                    assert(names[i as int]@ != k);
                }
            }
            i += 1;
        }
        proof {
            let expected = unseen(old(self)@, other@).moved;
            assert forall|k: Seq<char>| self@.moved.dom().contains(k) <==> #[trigger]
                expected.dom().contains(k) by {
                if other@.in_sight.contains(k) {
                    let j = choose|j: int| 0 <= j < names.len() && (#[trigger] names[j])@ == k;
                    assert(names[j]@ == k);
                } else {
                    assert forall|j: int| 0 <= j < names.len() implies (#[trigger] names[j])@ != k by {
                        if names[j]@ == k {
                            assert(other@.in_sight.contains(k));
                        }
                    }
                }
            }
            assert(self@.moved =~= expected);
        }
    }

    /// Forget the names that are bound past the first `depth` scopes.
    pub fn forget_inner(&mut self, depth: usize)
        requires
            old(self).wf(),
        ensures
            final(self).wf(),
            final(self)@ == outer(old(self)@, depth as nat),
    {
        let ghost start = self@;
        let ghost scopes = self@.scopes;
        assert(scopes.len() == self.scopes@.len());
        if depth >= self.scopes.len() {
            if depth == self.scopes.len() {
                assert(scopes.skip(depth as int) =~= Seq::empty());
            }
            return;
        }
        let ghost inner = scopes.skip(depth as int);
        let mut i: usize = depth;
        assert(inner.take(0) =~= Seq::empty());
        while i < self.scopes.len()
            invariant
                self.wf(),
                self@.scopes == scopes,
                scopes.len() == self.scopes@.len(),
                depth <= i <= scopes.len(),
                inner == scopes.skip(depth as int),
                self@ == forget_scopes(start, inner.take(i - depth)),
            decreases scopes.len() - i,
        {
            let ghost before = self@;
            let names: Vec<String> = copy_texts(&self.scopes[i]);
            proof {
                assert(scopes[i as int] == texts(self.scopes@[i as int]@));
                assert(inner.take(i - depth + 1).drop_last() =~= inner.take(i - depth));
                assert(inner.take(i - depth + 1).last() == scopes[i as int]);
            }
            self.forget_each(&names);
            proof {
                assert(self@ == forget_all(before, scopes[i as int]));
                lemma_forget_all_scopes(before, scopes[i as int]);
                assert(self@.scopes.len() == self.scopes@.len());
            }
            i += 1;
        }
        assert(inner.take(i - depth) =~= inner);
    }

    fn forget_each(&mut self, names: &Vec<String>)
        requires
            old(self).wf(),
        ensures
            final(self).wf(),
            final(self)@ == forget_all(old(self)@, texts(names@)),
    {
        let ghost all = texts(names@);
        let ghost start = self@;
        let mut i: usize = 0;
        assert(all.take(0) =~= Seq::empty());
        while i < names.len()
            invariant
                i <= names@.len(),
                all == texts(names@),
                self.wf(),
                self@ == forget_all(start, all.take(i as int)),
            decreases names@.len() - i,
        {
            assert(all.take(i + 1).drop_last() =~= all.take(i as int));
            assert(all.take(i + 1).last() == names@[i as int]@);
            self.forget(names[i].as_str());
            i += 1;
        }
        assert(all.take(i as int) =~= all);
    }

    /// Keep in sight what is in sight in another state only.
    pub fn keep_seen(&mut self, other: &Self)
        requires
            old(self).wf(),
            other.wf(),
        ensures
            final(self).wf(),
            final(self)@ == (FlowV {
                in_sight: old(self)@.in_sight.intersect(other@.in_sight),
                ..old(self)@
            }),
    {
        self.in_sight = self.in_sight.meet(&other.in_sight);
    }

    /// Add the moves at the end of a path that started from `before`.
    pub fn join_path(&mut self, before: &Self, path: &Self)
        requires
            old(self).wf(),
            before.wf(),
            path.wf(),
        ensures
            final(self).wf(),
            final(self)@ == union(old(self)@, along(before@, path@)),
    {
        let state: FlowState = Self::along(before, path);
        self.union_from(&state);
    }

    /// What has moved at the end of a path that started from `before`.
    pub fn along(before: &Self, path: &Self) -> (r: Self)
        requires
            before.wf(),
            path.wf(),
        ensures
            r.wf(),
            r@ == along(before@, path@),
    {
        let mut state: FlowState = before.copy();
        state.keep_unseen(path);
        state.union_from(path);
        state
    }

    /// Make a written place valid again, along with everything below it.
    ///
    /// A move of a strict ancestor survives: replacing one field does not
    /// revive the whole value.
    pub fn reinitialize(&mut self, place: &Place)
        requires
            old(self).wf(),
        ensures
            final(self).wf(),
            final(self)@ == reinitialized(old(self)@, place@),
    {
        let ghost before = self@.moved;
        match self.moved.take(place.root()) {
            Some(records) => {
                let kept: MoveRecords = records.keep_outside(place);
                assert(kept@.len() == kept.list@.len());
                if kept.list.len() > 0 {
                    self.moved.insert(place.root(), kept);
                    assert(self@.moved =~= before.insert(place@.root, kept@));
                }
            },
            None => {
                assert(self@.moved =~= before);
            },
        }
    }
}

proof fn lemma_forget_all_scopes(f: FlowV, names: Seq<Seq<char>>)
    ensures
        forget_all(f, names).scopes == f.scopes,
    decreases names.len(),
{
    if names.len() > 0 {
        lemma_forget_all_scopes(f, names.drop_last());
    }
}

/// The moves after the entries of another table were added one after the other.
spec fn joined_moves(
    start: Map<Seq<char>, Seq<MoveRecordV>>,
    entries: Seq<(String, MoveRecords)>,
) -> Map<Seq<char>, Seq<MoveRecordV>>
    decreases entries.len(),
{
    if entries.len() == 0 {
        start
    } else {
        let m = joined_moves(start, entries.drop_last());
        let k = entries.last().0@;
        let present = if m.dom().contains(k) {
            m[k]
        } else {
            Seq::empty()
        };
        m.insert(k, merged(present, entries.last().1@))
    }
}

proof fn lemma_joined_moves(f: FlowV, entries: Seq<(String, MoveRecords)>)
    requires
        distinct_keys(entries),
    ensures
        forall|k: Seq<char>| #[trigger]
            joined_moves(f.moved, entries).dom().contains(k) <==> (f.moved.dom().contains(k)
                || has_key(entries, k)),
        forall|k: Seq<char>| #[trigger]
            joined_moves(f.moved, entries).dom().contains(k) ==> joined_moves(f.moved, entries)[k]
                == (if has_key(entries, k) {
                merged(moves_of(f, k), as_map(entries)[k])
            } else {
                f.moved[k]
            }),
    decreases entries.len(),
{
    if entries.len() > 0 {
        let rest = entries.drop_last();
        let n = entries.len() - 1;
        let last = entries[n].0@;
        assert forall|i: int, j: int|
            0 <= i < rest.len() && 0 <= j < rest.len() && (#[trigger] rest[i]).0@ == (
            #[trigger] rest[j]).0@ implies i == j by {
            assert(entries[i].0@ == entries[j].0@);
        }
        lemma_joined_moves(f, rest);
        assert(!has_key(rest, last)) by {
            if has_key(rest, last) {
                let i = key_index(rest, last);
                assert(rest[i].0@ == last);
                assert(entries[i].0@ == entries[n].0@);
            }
        }
        lemma_key_at(entries, n);
        assert forall|k: Seq<char>| has_key(entries, k) <==> (k == last || has_key(rest, k)) by {
            if has_key(rest, k) {
                let i = key_index(rest, k);
                assert(entries[i] == rest[i]);
            }
            if has_key(entries, k) && k != last {
                let i = key_index(entries, k);
                assert(rest[i] == entries[i]);
            }
        }
        assert forall|k: Seq<char>| has_key(rest, k) implies as_map(rest)[k] == as_map(
            entries,
        )[k] by {
            let i = key_index(rest, k);
            lemma_key_at(rest, i);
            assert(entries[i] == rest[i]);
            lemma_key_at(entries, i);
        }
        let m = joined_moves(f.moved, rest);
        let whole = joined_moves(f.moved, entries);
        let present = if m.dom().contains(last) {
            m[last]
        } else {
            Seq::empty()
        };
        assert(whole == m.insert(last, merged(present, entries.last().1@)));
        assert(present == moves_of(f, last));
        assert forall|k: Seq<char>| #[trigger] whole.dom().contains(k) <==> (
        f.moved.dom().contains(k) || has_key(entries, k)) by {
            assert(m.dom().contains(k) <==> (f.moved.dom().contains(k) || has_key(rest, k)));
        }
        assert forall|k: Seq<char>| #[trigger] whole.dom().contains(k) implies whole[k] == (
        if has_key(entries, k) {
            merged(moves_of(f, k), as_map(entries)[k])
        } else {
            f.moved[k]
        }) by {
            if k != last {
                assert(m.dom().contains(k));
            }
        }
    } else {
        assert(forall|k: Seq<char>| !has_key(entries, k));
    }
}

proof fn lemma_same_keys<A: View, B: View>(a: Seq<(String, A)>, b: Seq<(String, B)>)
    requires
        distinct_keys(a),
        a.len() == b.len(),
        forall|k: int| 0 <= k < b.len() ==> (#[trigger] b[k]).0@ == a[k].0@,
    ensures
        distinct_keys(b),
        as_map(b).dom() =~= as_map(a).dom(),
{
    assert forall|i: int, j: int|
        0 <= i < b.len() && 0 <= j < b.len() && (#[trigger] b[i]).0@ == (#[trigger] b[j]).0@ implies i
        == j by {
        assert(a[i].0@ == a[j].0@);
    }
    assert forall|k: Seq<char>| has_key(a, k) <==> has_key(b, k) by {
        if has_key(a, k) {
            let i = key_index(a, k);
            assert(b[i].0@ == k);
        }
        if has_key(b, k) {
            let i = key_index(b, k);
            assert(a[i].0@ == k);
        }
    }
}

proof fn lemma_same_entries<A: View>(a: Seq<(String, A)>, b: Seq<(String, A)>)
    requires
        distinct_keys(a),
        a.len() == b.len(),
        forall|k: int| 0 <= k < b.len() ==> (#[trigger] b[k]).0@ == a[k].0@ && b[k].1@ == a[k].1@,
    ensures
        distinct_keys(b),
        as_map(b) == as_map(a),
{
    lemma_same_keys(a, b);
    assert forall|k: Seq<char>| #[trigger] as_map(b).dom().contains(k) implies as_map(b)[k]
        == as_map(a)[k] by {
        let i = key_index(b, k);
        lemma_key_at(b, i);
        lemma_key_at(a, i);
    }
    assert(as_map(b) =~= as_map(a));
}


} // verus!
