use vstd::prelude::*;
use crate::text::{chars_of, decimal, push_all, push_decimal, string_from};

verus! {

/// The ordered list of tasks, each a string; duplicates are allowed.
pub struct Todo {
    pub tasks: Vec<String>,
}

impl View for Todo {
    type V = Seq<Seq<char>>;

    open spec fn view(&self) -> Seq<Seq<char>> {
        self.tasks@.map_values(|t: String| t@)
    }
}

/// The message shown for an empty list.
pub open spec fn no_tasks_text() -> Seq<char> {
    seq!['N', 'o', ' ', 't', 'a', 's', 'k', 's', '.', '\n']
}

/// The heading shown above a non-empty list.
pub open spec fn heading_text() -> Seq<char> {
    seq!['T', 'a', 's', 'k', 's', ':', '\n']
}

/// One numbered line of the listing: `<pos>. <task>`.
pub open spec fn entry_line(pos: nat, task: Seq<char>) -> Seq<char> {
    decimal(pos) + seq!['.', ' '] + task + seq!['\n']
}

/// The numbered lines of all tasks, counting from 1.
pub open spec fn entry_lines(tasks: Seq<Seq<char>>) -> Seq<char>
    decreases tasks.len(),
{
    if tasks.len() == 0 {
        Seq::empty()
    } else {
        entry_lines(tasks.drop_last()) + entry_line(tasks.len(), tasks.last())
    }
}

/// What listing the tasks shows.
pub open spec fn listing(tasks: Seq<Seq<char>>) -> Seq<char> {
    if tasks.len() == 0 {
        no_tasks_text()
    } else {
        heading_text() + entry_lines(tasks)
    }
}

impl Todo {
    /// An empty list.
    pub fn new() -> (r: Todo)
        ensures
            r@ == Seq::<Seq<char>>::empty(),
    {
        let r = Todo { tasks: Vec::new() };
        assert(r@ =~= Seq::<Seq<char>>::empty());
        r
    }

    /// Appends `task` at the end.
    pub fn add_task(&mut self, task: String)
        ensures
            final(self)@ == old(self)@.push(task@),
    {
        self.tasks.push(task);
        assert(final(self)@ =~= old(self)@.push(task@));
    }

    /// Number of tasks.
    pub fn len(&self) -> (r: usize)
        ensures
            r == self@.len(),
    {
        self.tasks.len()
    }

    /// Removes the task at zero-based `index` and returns `true` when `index`
    /// is in range; otherwise leaves the list as it is and returns `false`.
    pub fn remove_task(&mut self, index: usize) -> (r: bool)
        ensures
            r == (index < old(self)@.len()),
            r ==> final(self)@ == old(self)@.remove(index as int),
            !r ==> final(self)@ == old(self)@,
    {
        if index < self.tasks.len() {
            self.tasks.remove(index);
            assert(final(self)@ =~= old(self)@.remove(index as int));
            true
        } else {
            false
        }
    }

    /// The listing: "No tasks." for an empty list, else a heading and one
    /// numbered line per task.
    pub fn display_tasks(&self) -> (r: String)
        ensures
            r@ == listing(self@),
    {
        let mut out: Vec<char> = Vec::new();
        let n = self.tasks.len();
        if n == 0 {
            let t = vec!['N', 'o', ' ', 't', 'a', 's', 'k', 's', '.', '\n'];
            push_all(&mut out, &t);
            assert(out@ =~= no_tasks_text());
            return string_from(&out);
        }
        let h = vec!['T', 'a', 's', 'k', 's', ':', '\n'];
        push_all(&mut out, &h);
        assert(out@ =~= heading_text());
        let mut i: usize = 0;
        while i < n
            invariant
                i <= n == self@.len(),
                self@.len() == self.tasks@.len(),
                out@ == heading_text() + entry_lines(self@.subrange(0, i as int)),
            decreases n - i,
        {
            let ghost before = out@;
            push_decimal(&mut out, i + 1);
            let sep = vec!['.', ' '];
            push_all(&mut out, &sep);
            let t = chars_of(self.tasks[i].as_str());
            push_all(&mut out, &t);
            let nl = vec!['\n'];
            push_all(&mut out, &nl);
            proof {
                let s = self@.subrange(0, i + 1);
                assert(s.drop_last() =~= self@.subrange(0, i as int));
                assert(s.last() == self@[i as int]);
                assert(out@ =~= before + entry_line((i + 1) as nat, self@[i as int]));
            }
            i = i + 1;
        }
        assert(self@.subrange(0, n as int) =~= self@);
        string_from(&out)
    }
}

/// Adding one task to an empty list and listing it shows exactly one
/// numbered entry: position 1, with that task's text.
pub proof fn add_then_list(x: Seq<char>)
    ensures
        listing(Seq::<Seq<char>>::empty().push(x)) == heading_text() + seq!['1', '.', ' '] + x
            + seq!['\n'],
{
    let s = Seq::<Seq<char>>::empty().push(x);
    assert(s.drop_last() =~= Seq::<Seq<char>>::empty());
    assert(s.last() == x);
    assert(entry_lines(s.drop_last()) == Seq::<char>::empty());
    assert(decimal(1) == seq!['1']);
    assert(entry_lines(s) == entry_lines(s.drop_last()) + entry_line(1, x));
    assert(entry_lines(s) =~= seq!['1', '.', ' '] + x + seq!['\n']);
    assert(listing(s) =~= heading_text() + seq!['1', '.', ' '] + x + seq!['\n']);
}

/// Removing the task at zero-based `i` leaves one task fewer: those before
/// `i` keep their places and each one after it moves down by one.
pub proof fn removal_shifts_down(tasks: Seq<Seq<char>>, i: int)
    requires
        0 <= i < tasks.len(),
    ensures
        tasks.remove(i).len() == tasks.len() - 1,
        forall|j: int| 0 <= j < i ==> #[trigger] tasks.remove(i)[j] == tasks[j],
        forall|j: int| i <= j < tasks.len() - 1 ==> #[trigger] tasks.remove(i)[j] == tasks[j + 1],
{
}

} // verus!
