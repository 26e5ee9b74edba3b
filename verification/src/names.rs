//! The stack of the names that are in force at a place of a document, each
//! with the depth at which it was seen.

use crate::text::join;
use crate::text::joined;
use vstd::prelude::*;

verus! {

/// A stack of names, bottom first, each with the depth at which it was seen.
pub type Names = Seq<(usize, Seq<char>)>;

/// The depths grow from the bottom of the stack to its top.
pub open spec fn stack_sorted(stack: Names) -> bool {
    forall|i: int, j: int| 0 <= i < j < stack.len() ==> stack[i].0 < stack[j].0
}

/// The stack without the entries at its top whose depth is `depth` or more.
pub open spec fn kept_below(stack: Names, depth: usize) -> Names
    decreases stack.len(),
{
    if stack.len() > 0 && stack.last().0 >= depth {
        kept_below(stack.drop_last(), depth)
    } else {
        stack
    }
}

/// The stack after a name was seen at `depth`: what stood at that depth or
/// deeper has gone, and the name is the new top.
pub open spec fn pushed(stack: Names, depth: usize, name: Seq<char>) -> Names {
    kept_below(stack, depth).push((depth, name))
}

/// The name at the top of the stack, or the empty name under an empty stack.
pub open spec fn latest(stack: Names) -> Seq<char> {
    if stack.len() == 0 {
        Seq::empty()
    } else {
        stack.last().1
    }
}

/// The name of the first entry from the bottom that lies deeper than
/// `depth`, or the empty name where none does.
pub open spec fn first_deeper(stack: Names, depth: usize) -> Seq<char>
    decreases stack.len(),
{
    if stack.len() == 0 {
        Seq::empty()
    } else if stack.first().0 > depth {
        stack.first().1
    } else {
        first_deeper(stack.drop_first(), depth)
    }
}

/// The names of a stack without their depths.
pub open spec fn names_of(stack: Names) -> Seq<Seq<char>> {
    stack.map_values(|entry: (usize, Seq<char>)| entry.1)
}

/// The path that a stack spells: its names from the second on, outermost
/// first, with ` > ` between them. The first name, that of the document's
/// root, is left out. A stack of one name spells the empty path, and so does
/// the empty stack.
pub open spec fn breadcrumb(stack: Names) -> Seq<char> {
    if stack.len() == 0 {
        Seq::empty()
    } else {
        joined(names_of(stack.skip(1)), " > "@)
    }
}

/// What `kept_below` keeps are the stack's first entries, in place, and the
/// first entry that goes is at least as deep as `depth`. Under a sorted stack
/// every entry that stays is less deep than `depth` and every entry that goes
/// is at least as deep: just the entries at that depth or deeper are
/// discarded.
pub proof fn lemma_kept_below(stack: Names, depth: usize)
    ensures
        kept_below(stack, depth).len() <= stack.len(),
        kept_below(stack, depth) == stack.take(kept_below(stack, depth).len() as int),
        kept_below(stack, depth).len() < stack.len() ==> stack[kept_below(
            stack,
            depth,
        ).len() as int].0 >= depth,
        stack_sorted(stack) ==> stack_sorted(kept_below(stack, depth)),
        stack_sorted(stack) ==> forall|i: int|
            0 <= i < kept_below(stack, depth).len() ==> (#[trigger] kept_below(stack, depth)[i]).0
                < depth,
        stack_sorted(stack) ==> forall|i: int|
            kept_below(stack, depth).len() <= i < stack.len() ==> (#[trigger] stack[i]).0 >= depth,
    decreases stack.len(),
{
    if stack.len() > 0 && stack.last().0 >= depth {
        let rest = stack.drop_last();
        lemma_kept_below(rest, depth);
        let kept = kept_below(rest, depth);
        assert(kept == stack.take(kept.len() as int)) by {
            assert(rest.take(kept.len() as int) =~= stack.take(kept.len() as int));
        }
        if stack_sorted(stack) {
            assert(stack_sorted(rest));
            assert forall|i: int| kept.len() <= i < stack.len() implies (#[trigger] stack[i]).0
                >= depth by {
                if i < rest.len() {
                    assert(rest[i].0 >= depth);
                }
            }
        }
    } else {
        assert(stack.take(stack.len() as int) =~= stack);
        if stack_sorted(stack) && stack.len() > 0 {
            assert forall|i: int| 0 <= i < stack.len() implies (#[trigger] stack[i]).0 < depth by {
                if i < stack.len() - 1 {
                    assert(stack[i].0 < stack[stack.len() - 1].0);
                }
            }
        }
    }
}

/// From the bottom of a sorted stack to its top the depths never decrease.
pub proof fn lemma_sorted_never_decreases(stack: Names)
    requires
        stack_sorted(stack),
    ensures
        forall|i: int, j: int| 0 <= i <= j < stack.len() ==> stack[i].0 <= stack[j].0,
{
}

/// A name seen at any depth leaves the stack sorted.
pub proof fn lemma_pushed_sorted(stack: Names, depth: usize, name: Seq<char>)
    requires
        stack_sorted(stack),
    ensures
        stack_sorted(pushed(stack, depth, name)),
{
    lemma_kept_below(stack, depth);
}

/// The path of a stack does not depend on the stack's first entry: with any
/// other root in its place the path is the same.
pub proof fn lemma_breadcrumb_leaves_root_out(stack: Names, root: (usize, Seq<char>))
    requires
        stack.len() > 0,
    ensures
        breadcrumb(stack.update(0, root)) == breadcrumb(stack),
{
    assert(stack.update(0, root).skip(1) =~= stack.skip(1));
}

/// The stack of names that are in force at the current place of the
/// document. Its depths grow from bottom to top.
#[derive(Debug)]
pub struct NameStack {
    entries: Vec<(usize, String)>,
}

impl View for NameStack {
    type V = Names;

    closed spec fn view(&self) -> Names {
        self.entries.deep_view()
    }
}

impl NameStack {
    #[verifier::type_invariant]
    spec fn inv(self) -> bool {
        stack_sorted(self.entries.deep_view())
    }

    /// The empty stack.
    pub fn new() -> (stack: Self)
        ensures
            stack@ == Names::empty(),
    {
        let stack = NameStack { entries: Vec::new() };
        assert(stack.entries.deep_view() =~= Names::empty());
        stack
    }

    /// States what holds of every stack.
    pub fn sorted(&self)
        ensures
            stack_sorted(self@),
    {
        proof {
            use_type_invariant(self);
        }
    }

    /// The number of names on the stack.
    pub fn len(&self) -> (len: usize)
        ensures
            len == self@.len(),
    {
        self.entries.len()
    }

    /// The depth of the entry at a place, counted from the bottom.
    pub fn depth_at(&self, place: usize) -> (depth: usize)
        requires
            place < self@.len(),
        ensures
            depth == self@[place as int].0,
    {
        self.entries[place].0
    }

    /// The name of the entry at a place, counted from the bottom.
    pub fn name_at(&self, place: usize) -> (name: &str)
        requires
            place < self@.len(),
        ensures
            name@ == self@[place as int].1,
    {
        self.entries[place].1.as_str()
    }

    /// Takes off the top every entry whose depth is `depth` or more.
    pub fn discard_from(&mut self, depth: usize)
        ensures
            final(self)@ == kept_below(old(self)@, depth),
    {
        proof {
            use_type_invariant(&*self);
            lemma_kept_below(self@, depth);
        }
        let ghost before = self@;
        let mut taken = NameStack::new();
        std::mem::swap(self, &mut taken);
        let NameStack { mut entries } = taken;
        while entries.len() > 0 && entries[entries.len() - 1].0 >= depth
            invariant
                entries.deep_view().len() <= before.len(),
                entries.deep_view() == before.take(entries.deep_view().len() as int),
                kept_below(entries.deep_view(), depth) == kept_below(before, depth),
                stack_sorted(before),
            decreases entries.len(),
        {
            let ghost longer = entries.deep_view();
            entries.pop();
            proof {
                assert(entries.deep_view() =~= longer.drop_last());
                assert(entries.deep_view() =~= before.take(entries.deep_view().len() as int));
            }
        }
        proof {
            let kept = entries.deep_view();
            assert(kept_below(kept, depth) == kept);
            assert(stack_sorted(kept));
        }
        *self = NameStack { entries };
    }

    /// Records a name seen at `depth`: the entries at that depth or deeper
    /// go, then the name becomes the top.
    pub fn push_name(&mut self, depth: usize, name: String)
        ensures
            final(self)@ == pushed(old(self)@, depth, name@),
    {
        proof {
            use_type_invariant(&*self);
            lemma_kept_below(self@, depth);
            lemma_pushed_sorted(self@, depth, name@);
        }
        self.discard_from(depth);
        let ghost kept = self@;
        let mut taken = NameStack::new();
        std::mem::swap(self, &mut taken);
        let NameStack { mut entries } = taken;
        entries.push((depth, name));
        proof {
            assert(entries.deep_view() =~= kept.push((depth, name@)));
        }
        *self = NameStack { entries };
    }

    /// The name at the top, or the empty name.
    pub fn latest(&self) -> (name: String)
        ensures
            name@ == latest(self@),
    {
        let n = self.entries.len();
        if n == 0 {
            String::new()
        } else {
            self.entries[n - 1].1.clone()
        }
    }

    /// The name of the first entry from the bottom that lies deeper than
    /// `depth`, or the empty name.
    pub fn first_deeper(&self, depth: usize) -> (name: String)
        ensures
            name@ == first_deeper(self@, depth),
    {
        let n = self.entries.len();
        let mut i: usize = 0;
        proof {
            assert(self@.skip(0) =~= self@);
        }
        while i < n
            invariant
                n == self@.len(),
                i <= n,
                first_deeper(self@, depth) == first_deeper(self@.skip(i as int), depth),
            decreases n - i,
        {
            proof {
                assert(self@.skip(i as int).first() == self@[i as int]);
                assert(self@.skip(i as int).drop_first() =~= self@.skip(i + 1));
            }
            if self.entries[i].0 > depth {
                return self.entries[i].1.clone();
            }
            i = i + 1;
        }
        proof {
            assert(self@.skip(n as int).len() == 0);
        }
        String::new()
    }

    /// The path that the stack spells, without the name of the root.
    pub fn breadcrumb(&self) -> (path: String)
        ensures
            path@ == breadcrumb(self@),
    {
        let n = self.entries.len();
        let mut parts: Vec<&str> = Vec::new();
        let mut i: usize = 1;
        proof {
            assert(parts.deep_view() =~= names_of(self@.skip(1)).take(0));
        }
        while i < n
            invariant
                n == self@.len(),
                1 <= i,
                i <= n || n == 0,
                n > 0 ==> parts.deep_view() == names_of(self@.skip(1)).take(i - 1),
                n == 0 ==> parts.deep_view() == Seq::<Seq<char>>::empty(),
            decreases n - i,
        {
            let ghost before = parts.deep_view();
            parts.push(self.entries[i].1.as_str());
            proof {
                assert(parts.deep_view() =~= before.push(self@[i as int].1));
                assert(names_of(self@.skip(1))[i - 1] == self@[i as int].1);
                assert(parts.deep_view() =~= names_of(self@.skip(1)).take(i as int));
            }
            i = i + 1;
        }
        proof {
            if n > 0 {
                assert(names_of(self@.skip(1)).take(n - 1) =~= names_of(self@.skip(1)));
            }
        }
        join(&parts, " > ")
    }
}

} // verus!
