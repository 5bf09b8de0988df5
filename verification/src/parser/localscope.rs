//! The local variables of a program: a stack of names with the depth of the
//! block that declared each, and the stack slot each one gets at the end.

use vstd::prelude::*;
use crate::util::str_eq;

verus! {

pub struct LocalScope {
    pub local_count: i8,
    pub scope_depth: i8,
    pub locals: Vec<Local>,
    pub offset: i32,
}

pub struct Local {
    id: i8,
    name: String,
    depth: i8,
    offset: i32,
}

/// What a local is, with its name as a sequence of characters.
pub struct LocalView {
    pub id: int,
    pub name: Seq<char>,
    pub depth: int,
    pub offset: int,
}

/// What a scope is: the locals in the order in which they were added, how
/// many of them are live, the current depth and the frame size.
pub struct ScopeView {
    pub count: int,
    pub depth: int,
    pub locals: Seq<LocalView>,
    pub offset: int,
}

impl View for Local {
    type V = LocalView;

    closed spec fn view(&self) -> LocalView {
        LocalView {
            id: self.id as int,
            name: self.name@,
            depth: self.depth as int,
            offset: self.offset as int,
        }
    }
}

impl View for LocalScope {
    type V = ScopeView;

    open spec fn view(&self) -> ScopeView {
        ScopeView {
            count: self.local_count as int,
            depth: self.scope_depth as int,
            locals: self.locals@.map_values(|l: Local| l@),
            offset: self.offset as int,
        }
    }
}

/// How many of the first `count` locals stay live at depth `depth`: those on
/// top that are deeper leave.
pub open spec fn live_at(locals: Seq<LocalView>, count: int, depth: int) -> int
    decreases count,
{
    if 0 < count <= locals.len() && locals[count - 1].depth > depth {
        live_at(locals, count - 1, depth)
    } else {
        count
    }
}

impl LocalView {
    /// Whether a lookup from depth `depth` stops at this local: it belongs
    /// to a block outside the current one.
    pub open spec fn shallower_than(self, depth: int) -> bool {
        self.depth != -1 && self.depth < depth
    }
}

impl ScopeView {
    /// A scope with nothing in it.
    pub open spec fn empty() -> ScopeView {
        ScopeView { count: 0, depth: 0, locals: Seq::empty(), offset: 0 }
    }

    /// The live locals are among the stored ones.
    pub open spec fn wf(self) -> bool {
        self.count <= self.locals.len()
    }

    /// The index of the first local named `name`, going from index `from`
    /// down and stopping at the first local of an outer block.
    pub open spec fn find_name(self, name: Seq<char>, from: int) -> Option<int>
        decreases from + 1,
    {
        if from < 0 || from >= self.locals.len() || self.locals[from].shallower_than(self.depth) {
            None
        } else if self.locals[from].name == name {
            Some(from)
        } else {
            self.find_name(name, from - 1)
        }
    }

    /// The index of the first local with the id `id`, going from index
    /// `from` down and stopping at the first local of an outer block.
    pub open spec fn find_id(self, id: int, from: int) -> Option<int>
        decreases from + 1,
    {
        if from < 0 || from >= self.locals.len() || self.locals[from].shallower_than(self.depth) {
            None
        } else if self.locals[from].id == id {
            Some(from)
        } else {
            self.find_id(id, from - 1)
        }
    }

    /// The index of the first local named `name`, going from index `from`
    /// down, whatever the depths.
    pub open spec fn resolve(self, name: Seq<char>, from: int) -> Option<int>
        decreases from + 1,
    {
        if from < 0 {
            None
        } else if from < self.locals.len() && self.locals[from].name == name {
            Some(from)
        } else {
            self.resolve(name, from - 1)
        }
    }

    /// Whether `name` is visible in the current block, and under which id.
    pub open spec fn contains(self, name: Seq<char>) -> (bool, int) {
        match self.find_name(name, self.count - 1) {
            Some(i) => (true, self.locals[i].id),
            None => (false, 0),
        }
    }

    /// Whether a local with the id `id` is visible in the current block, and
    /// its offset.
    pub open spec fn offset_by_id(self, id: int) -> (bool, int) {
        match self.find_id(id, self.count - 1) {
            Some(i) => (true, self.locals[i].offset),
            None => (false, 0),
        }
    }

    /// The scope after a new local named `name` was added.
    pub open spec fn add_local(self, name: Seq<char>) -> ScopeView {
        ScopeView {
            count: self.count + 1,
            locals: self.locals.push(
                LocalView { id: self.count + 1, name, depth: self.depth, offset: 0 },
            ),
            ..self
        }
    }

    /// The id under which `name` goes after it was looked up and, where it
    /// was not visible, added.
    pub open spec fn id_of(self, name: Seq<char>) -> int {
        if self.contains(name).0 {
            self.contains(name).1
        } else {
            self.count + 1
        }
    }

    /// The scope after `name` was looked up and, where it was not visible,
    /// added.
    pub open spec fn add_local_if_not_exist(self, name: Seq<char>) -> ScopeView {
        if self.contains(name).0 {
            self
        } else {
            self.add_local(name)
        }
    }

    /// The scope after the current block was left.
    pub open spec fn end_scope(self) -> ScopeView {
        ScopeView {
            depth: self.depth - 1,
            count: live_at(self.locals, self.count, self.depth - 1),
            ..self
        }
    }

    /// The scope after every stored local got its slot: the local at index
    /// `i` lies `8 * (i + 1)` bytes below the frame pointer, and the frame
    /// holds them all.
    pub open spec fn assign_offsets(self) -> ScopeView {
        ScopeView {
            locals: Seq::new(
                self.locals.len(),
                |i: int| LocalView { offset: -8 * (i + 1), ..self.locals[i] },
            ),
            offset: 8 * (self.locals.len() as int),
            ..self
        }
    }
}

impl Local {
    pub fn new(name: String, depth: i8, id: i8) -> (l: Self)
        ensures
            l@ == (LocalView { id: id as int, name: name@, depth: depth as int, offset: 0 }),
    {
        Self { name, depth, offset: 0, id }
    }
}

impl LocalScope {
    pub fn new() -> (s: Self)
        ensures
            s@ == ScopeView::empty(),
    {
        let s = Self { local_count: 0, locals: Vec::new(), scope_depth: 0, offset: 0 };
        assert(s@.locals =~= Seq::empty());
        s
    }

    /// Enters a block.
    pub fn begin_scope(&mut self)
        requires
            old(self).scope_depth < i8::MAX,
        ensures
            final(self)@ == (ScopeView { depth: old(self)@.depth + 1, ..old(self)@ }),
    {
        self.scope_depth += 1;
    }

    /// Leaves a block, and tells how many locals left with it.
    pub fn end_scope(&mut self) -> (counts: u8)
        requires
            old(self)@.wf(),
            old(self).scope_depth > i8::MIN,
        ensures
            final(self)@ == old(self)@.end_scope(),
            counts == old(self)@.count - final(self)@.count,
            final(self)@.wf(),
    {
        self.scope_depth -= 1;
        let mut counts: u8 = 0;
        while self.local_count > 0 && self.locals[(self.local_count - 1) as usize].depth
            > self.scope_depth
            invariant
                self@.wf(),
                self.locals == old(self).locals,
                self.offset == old(self).offset,
                self.scope_depth == old(self).scope_depth - 1,
                self.local_count <= old(self).local_count,
                counts == old(self).local_count - self.local_count,
                live_at(old(self)@.locals, old(self)@.count, self@.depth) == live_at(
                    old(self)@.locals,
                    self@.count,
                    self@.depth,
                ),
            decreases self.local_count,
        {
            counts += 1;
            self.local_count -= 1
        }
        counts
    }

    /// The id of `name`: the one it has if it is visible in the current
    /// block, else that of a new local.
    pub fn add_local_if_not_exist(&mut self, name: &str) -> (id: i8)
        requires
            old(self)@.wf(),
            old(self)@.contains(name@).0 || old(self).local_count < i8::MAX,
        ensures
            final(self)@ == old(self)@.add_local_if_not_exist(name@),
            id == old(self)@.id_of(name@),
            final(self)@.wf(),
    {
        let (exist, id) = self.contains(name);
        if exist {
            return id;
        }
        self.add_local(name)
    }

    /// Adds a local named `name` at the current depth.
    pub fn add_local(&mut self, name: &str) -> (id: i8)
        requires
            old(self).local_count < i8::MAX,
        ensures
            final(self)@ == old(self)@.add_local(name@),
            id == old(self)@.count + 1,
    {
        self.local_count += 1;
        let local = Local::new(name.to_owned(), self.scope_depth, self.local_count);
        self.locals.push(local);
        assert(self@.locals =~= old(self)@.locals.push(local@));
        self.local_count
    }

    /// Looks a local up by its id in the current block.
    pub fn offset_by_id(&self, id: i8) -> (r: (bool, i32))
        requires
            self@.wf(),
        ensures
            r.0 == self@.offset_by_id(id as int).0,
            r.1 == self@.offset_by_id(id as int).1,
    {
        if self.local_count <= 0 {
            return (false, 0);
        }
        let mut counter: i8 = self.local_count - 1;

        while counter >= 0
            invariant
                self@.wf(),
                -1 <= counter < self.local_count,
                self@.find_id(id as int, self@.count - 1) == self@.find_id(id as int, counter as int),
            decreases counter + 1,
        {
            let l = &self.locals[counter as usize];
            if l.depth != -1 && l.depth < self.scope_depth {
                return (false, 0);
            }
            if l.id == id {
                return (true, l.offset);
            }
            counter -= 1;
        }
        (false, 0)
    }

    /// Looks a local up by its name in the current block.
    pub fn contains(&self, name: &str) -> (r: (bool, i8))
        requires
            self@.wf(),
        ensures
            r.0 == self@.contains(name@).0,
            r.1 == self@.contains(name@).1,
    {
        if self.local_count <= 0 {
            return (false, 0);
        }
        let mut counter: i8 = self.local_count - 1;

        while counter >= 0
            invariant
                self@.wf(),
                -1 <= counter < self.local_count,
                self@.find_name(name@, self@.count - 1) == self@.find_name(name@, counter as int),
            decreases counter + 1,
        {
            let l = &self.locals[counter as usize];
            if l.depth != -1 && l.depth < self.scope_depth {
                return (false, 0);
            }
            if str_eq(l.name.as_str(), name) {
                return (true, l.id);
            }
            counter -= 1;
        }

        (false, 0)
    }

    /// The index of the live local named `name` that was added last.
    pub fn resolve_local(&self, name: &str) -> (r: Option<u8>)
        ensures
            match self@.resolve(name@, self@.count - 1) {
                Some(i) => r == Some(i as u8),
                None => r is None,
            },
    {
        if self.local_count <= 0 {
            return None;
        }
        let mut counter: i8 = self.local_count - 1;

        while counter >= 0
            invariant
                -1 <= counter < self.local_count,
                self@.resolve(name@, self@.count - 1) == self@.resolve(name@, counter as int),
            decreases counter + 1,
        {
            let at: usize = counter as usize;
            if at < self.locals.len() {
                if str_eq(self.locals[at].name.as_str(), name) {
                    return Some(counter as u8);
                }
            }
            counter -= 1;
        }

        return None;
    }

    /// Gives every stored local its stack slot, and tells the frame size.
    pub fn assign_offsets(&mut self) -> (total: i32)
        requires
            old(self).locals@.len() * 8 <= i32::MAX,
        ensures
            final(self)@ == old(self)@.assign_offsets(),
            total == 8 * old(self)@.locals.len(),
    {
        let mut offset: i32 = 0;
        let mut i: usize = 0;
        while i < self.locals.len()
            invariant
                i <= self.locals@.len() == old(self).locals@.len(),
                self.locals@.len() * 8 <= i32::MAX,
                offset == 8 * i,
                self.local_count == old(self).local_count,
                self.scope_depth == old(self).scope_depth,
                forall|j: int|
                    0 <= j < i ==> (#[trigger] self.locals@[j])@ == (LocalView {
                        offset: -8 * (j + 1),
                        ..old(self).locals@[j]@
                    }),
                forall|j: int|
                    i <= j < self.locals@.len() ==> #[trigger] self.locals@[j] == old(
                        self,
                    ).locals@[j],
            decreases self.locals@.len() - i,
        {
            offset += 8;
            self.locals[i].offset = -offset;
            i += 1;
        }
        self.offset = offset;
        assert(self@.locals =~= old(self)@.assign_offsets().locals);

        self.offset
    }
}

} // verus!
