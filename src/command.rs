use vstd::prelude::*;
use crate::store::{listing, Todo};
use crate::text::{
    chars_of, digits_value, first_space, is_digit, is_white, string_from, trim_bounds, trimmed,
    trimmed_ends_in_non_white,
};

verus! {

/// A command line split into its verb and the remainder after the first space.
pub enum Command {
    /// `add`, with the task text where one was given.
    Add(Option<String>),
    /// `list`.
    List,
    /// `remove`, with the raw position text where one was given.
    Remove(Option<String>),
    /// `save`.
    Save,
    /// `exit`.
    Exit,
    /// Any other verb.
    Unknown,
}

/// What a command did, for the caller to report and act on.
pub enum Reply {
    TaskAdded,
    AddUsage,
    /// The listing to show.
    Listing(String),
    TaskRemoved,
    InvalidIndex,
    RemoveUsage,
    /// The caller should write the list to its file.
    Save,
    /// The caller should write the list to its file and stop.
    Exit,
    InvalidCommand,
}

pub open spec fn add_word() -> Seq<char> {
    seq!['a', 'd', 'd']
}

pub open spec fn list_word() -> Seq<char> {
    seq!['l', 'i', 's', 't']
}

pub open spec fn remove_word() -> Seq<char> {
    seq!['r', 'e', 'm', 'o', 'v', 'e']
}

pub open spec fn save_word() -> Seq<char> {
    seq!['s', 'a', 'v', 'e']
}

pub open spec fn exit_word() -> Seq<char> {
    seq!['e', 'x', 'i', 't']
}

/// The verb of a line: its trimmed text up to the first space.
pub open spec fn verb_of(line: Seq<char>) -> Seq<char> {
    let t = trimmed(line);
    t.subrange(0, first_space(t, 0))
}

/// The remainder of a line: its trimmed text after the first space, if any.
pub open spec fn rest_of(line: Seq<char>) -> Option<Seq<char>> {
    let t = trimmed(line);
    let k = first_space(t, 0);
    if k < t.len() {
        Some(t.subrange(k + 1, t.len() as int))
    } else {
        None
    }
}

/// The digits of a position, after an optional leading `+`.
pub open spec fn position_digits(s: Seq<char>) -> Seq<char> {
    if s.len() > 0 && s[0] == '+' {
        s.drop_first()
    } else {
        s
    }
}

/// The number that `s` spells as an unsigned machine integer: an optional
/// `+` and at least one decimal digit, with a value that fits in `usize`.
pub open spec fn parsed_position(s: Seq<char>) -> Option<int> {
    let d = position_digits(s);
    if d.len() > 0 && (forall|i: int| 0 <= i < d.len() ==> is_digit(#[trigger] d[i]))
        && digits_value(d) <= usize::MAX {
        Some(digits_value(d))
    } else {
        None
    }
}

/// Whether `s` names a 1-based position in a list of `n` tasks.
pub open spec fn valid_position(s: Seq<char>, n: nat) -> bool {
    parsed_position(s) matches Some(p) && 1 <= p <= n
}

/// Whether `cmd` is what `line` asks for.
pub open spec fn command_of(cmd: Command, line: Seq<char>) -> bool {
    let v = verb_of(line);
    let rest = rest_of(line);
    if v == add_word() {
        cmd matches Command::Add(a) && match rest {
            Some(x) => a matches Some(s) && s@ == x,
            None => a is None,
        }
    } else if v == list_word() {
        cmd is List
    } else if v == remove_word() {
        cmd matches Command::Remove(a) && match rest {
            Some(x) => a matches Some(s) && s@ == x,
            None => a is None,
        }
    } else if v == save_word() {
        cmd is Save
    } else if v == exit_word() {
        cmd is Exit
    } else {
        cmd is Unknown
    }
}

proof fn lemma_digits_value_nonneg(s: Seq<char>)
    requires
        forall|i: int| 0 <= i < s.len() ==> is_digit(#[trigger] s[i]),
    ensures
        digits_value(s) >= 0,
    decreases s.len(),
{
    if s.len() > 0 {
        lemma_digits_value_nonneg(s.drop_last());
    }
}

proof fn lemma_digits_value_prefix(s: Seq<char>, m: int)
    requires
        0 <= m <= s.len(),
        forall|i: int| 0 <= i < s.len() ==> is_digit(#[trigger] s[i]),
    ensures
        digits_value(s) >= digits_value(s.subrange(0, m)),
    decreases s.len(),
{
    if m < s.len() {
        let p = s.drop_last();
        assert(p.subrange(0, m) =~= s.subrange(0, m));
        lemma_digits_value_prefix(p, m);
        lemma_digits_value_nonneg(p);
    } else {
        assert(s.subrange(0, m) =~= s);
    }
}

/// Copies `s[a..b]`.
fn slice_chars(s: &Vec<char>, a: usize, b: usize) -> (r: Vec<char>)
    requires
        a <= b <= s@.len(),
    ensures
        r@ == s@.subrange(a as int, b as int),
{
    let mut r: Vec<char> = Vec::new();
    let mut i: usize = a;
    while i < b
        invariant
            a <= i <= b <= s@.len(),
            r@ == s@.subrange(a as int, i as int),
        decreases b - i,
    {
        r.push(s[i]);
        i = i + 1;
        assert(r@ =~= s@.subrange(a as int, i as int));
    }
    r
}

/// Whether `t[0..k]` is the word `w`.
fn is_word(t: &Vec<char>, k: usize, w: &Vec<char>) -> (r: bool)
    requires
        k <= t@.len(),
    ensures
        r == (t@.subrange(0, k as int) == w@),
{
    if k != w.len() {
        return false;
    }
    let mut i: usize = 0;
    while i < k
        invariant
            k == w@.len() <= t@.len(),
            i <= k,
            forall|j: int| 0 <= j < i ==> t@[j] == w@[j],
        decreases k - i,
    {
        if t[i] != w[i] {
            assert(t@.subrange(0, k as int)[i as int] != w@[i as int]);
            return false;
        }
        i = i + 1;
    }
    assert(t@.subrange(0, k as int) =~= w@);
    true
}

/// Reads a 1-based position: an optional `+` and decimal digits whose value
/// fits in `usize`.
pub fn parse_position(s: &str) -> (r: Option<usize>)
    ensures
        match parsed_position(s@) {
            Some(p) => r matches Some(v) && v == p,
            None => r is None,
        },
{
    let c = chars_of(s);
    let n = c.len();
    let start: usize = if n > 0 && c[0] == '+' { 1 } else { 0 };
    let d = slice_chars(&c, start, n);
    assert(d@ =~= position_digits(s@));
    if d.len() == 0 {
        return None;
    }
    let mut acc: usize = 0;
    let mut i: usize = 0;
    while i < d.len()
        invariant
            i <= d@.len(),
            d@ == position_digits(s@),
            forall|j: int| 0 <= j < i ==> is_digit(#[trigger] d@[j]),
            acc == digits_value(d@.subrange(0, i as int)),
        decreases d@.len() - i,
    {
        let ch = d[i];
        if !('0' <= ch && ch <= '9') {
            assert(!is_digit(d@[i as int]));
            return None;
        }
        let dv = (ch as u32 - 48) as usize;
        proof {
            let p = d@.subrange(0, i + 1);
            assert(p.drop_last() =~= d@.subrange(0, i as int));
            assert(digits_value(p) == acc * 10 + dv);
        }
        if acc > (usize::MAX - dv) / 10 {
            proof {
                assert(acc * 10 + dv > usize::MAX) by (nonlinear_arith)
                    requires
                        acc > (usize::MAX - dv) / 10,
                        dv <= 9,
                ;
                if forall|j: int| 0 <= j < d@.len() ==> is_digit(#[trigger] d@[j]) {
                    lemma_digits_value_prefix(d@, i + 1);
                    assert(digits_value(d@) > usize::MAX);
                }
            }
            return None;
        }
        assert(acc * 10 + dv <= usize::MAX) by (nonlinear_arith)
            requires
                acc <= (usize::MAX - dv) / 10,
                dv <= 9,
        ;
        acc = acc * 10 + dv;
        i = i + 1;
    }
    assert(d@.subrange(0, d@.len() as int) =~= d@);
    Some(acc)
}

/// Splits a command line into its verb and remainder.
pub fn parse_command(line: &str) -> (r: Command)
    ensures
        command_of(r, line@),
{
    let s = chars_of(line);
    let (a, b) = trim_bounds(&s);
    let t = slice_chars(&s, a, b);
    let n = t.len();
    let mut k: usize = 0;
    while k < n && t[k] != ' '
        invariant
            k <= n == t@.len(),
            first_space(t@, 0) == first_space(t@, k as int),
        decreases n - k,
    {
        k = k + 1;
    }
    let rest = if k < n {
        let x = slice_chars(&t, k + 1, n);
        Some(string_from(&x))
    } else {
        None
    };
    if is_word(&t, k, &vec!['a', 'd', 'd']) {
        Command::Add(rest)
    } else if is_word(&t, k, &vec!['l', 'i', 's', 't']) {
        Command::List
    } else if is_word(&t, k, &vec!['r', 'e', 'm', 'o', 'v', 'e']) {
        Command::Remove(rest)
    } else if is_word(&t, k, &vec!['s', 'a', 'v', 'e']) {
        Command::Save
    } else if is_word(&t, k, &vec!['e', 'x', 'i', 't']) {
        Command::Exit
    } else {
        Command::Unknown
    }
}

/// The `add` command.
pub struct AddCommand;

impl AddCommand {
    /// Appends the task where one was given; otherwise asks for usage.
    pub fn execute(todo: &mut Todo, task: Option<String>) -> (r: Reply)
        ensures
            match task {
                Some(t) => r is TaskAdded && final(todo)@ == old(todo)@.push(t@),
                None => r is AddUsage && final(todo)@ == old(todo)@,
            },
    {
        match task {
            Some(t) => {
                todo.add_task(t);
                Reply::TaskAdded
            },
            None => Reply::AddUsage,
        }
    }
}

/// The `list` command.
pub struct ListCommand;

impl ListCommand {
    /// The numbered listing of the tasks.
    pub fn execute(todo: &Todo) -> (r: String)
        ensures
            r@ == listing(todo@),
    {
        todo.display_tasks()
    }
}

/// The `remove` command.
pub struct RemoveCommand;

impl RemoveCommand {
    /// Removes the task at the 1-based position that `arg` spells, where it
    /// names one; otherwise leaves the list as it is.
    pub fn execute(todo: &mut Todo, arg: Option<String>) -> (r: Reply)
        ensures
            match arg {
                None => r is RemoveUsage && final(todo)@ == old(todo)@,
                Some(a) => if valid_position(a@, old(todo)@.len()) {
                    r is TaskRemoved && final(todo)@ == old(todo)@.remove(
                        parsed_position(a@)->0 - 1,
                    )
                } else {
                    r is InvalidIndex && final(todo)@ == old(todo)@
                },
            },
    {
        match arg {
            None => Reply::RemoveUsage,
            Some(a) => match parse_position(a.as_str()) {
                Some(p) => {
                    if p >= 1 && todo.remove_task(p - 1) {
                        Reply::TaskRemoved
                    } else {
                        Reply::InvalidIndex
                    }
                },
                None => Reply::InvalidIndex,
            },
        }
    }
}

impl Todo {
    /// Runs one command line against the list: `add <task>`, `list`,
    /// `remove <position>`, `save` or `exit`; anything else changes nothing.
    /// Saving and stopping are left to the caller, which the reply asks for.
    pub fn dispatch(&mut self, line: &str) -> (r: Reply)
        ensures
            ({
                let v = verb_of(line@);
                let rest = rest_of(line@);
                if v == add_word() {
                    match rest {
                        Some(x) => r is TaskAdded && final(self)@ == old(self)@.push(x),
                        None => r is AddUsage && final(self)@ == old(self)@,
                    }
                } else if v == list_word() {
                    r matches Reply::Listing(s) && s@ == listing(old(self)@)
                        && final(self)@ == old(self)@
                } else if v == remove_word() {
                    match rest {
                        None => r is RemoveUsage && final(self)@ == old(self)@,
                        Some(x) => if valid_position(x, old(self)@.len()) {
                            r is TaskRemoved && final(self)@ == old(self)@.remove(
                                parsed_position(x)->0 - 1,
                            )
                        } else {
                            r is InvalidIndex && final(self)@ == old(self)@
                        },
                    }
                } else if v == save_word() {
                    r is Save && final(self)@ == old(self)@
                } else if v == exit_word() {
                    r is Exit && final(self)@ == old(self)@
                } else {
                    r is InvalidCommand && final(self)@ == old(self)@
                }
            }),
    {
        match parse_command(line) {
            Command::Add(a) => AddCommand::execute(self, a),
            Command::List => Reply::Listing(ListCommand::execute(self)),
            Command::Remove(a) => RemoveCommand::execute(self, a),
            Command::Save => Reply::Save,
            Command::Exit => Reply::Exit,
            Command::Unknown => Reply::InvalidCommand,
        }
    }
}

proof fn lemma_first_space(s: Seq<char>, i: int)
    requires
        0 <= i <= s.len(),
    ensures
        i <= first_space(s, i) <= s.len(),
        first_space(s, i) < s.len() ==> s[first_space(s, i)] == ' ',
    decreases s.len() - i,
{
    if i < s.len() && s[i] != ' ' {
        lemma_first_space(s, i + 1);
    }
}

/// The text that a command line hands over after its verb is never blank:
/// it ends in a character that is not whitespace.
pub proof fn remainder_not_blank(line: Seq<char>)
    ensures
        rest_of(line) matches Some(x) ==> x.len() > 0 && !is_white(x.last()),
{
    let t = trimmed(line);
    lemma_first_space(t, 0);
    trimmed_ends_in_non_white(line);
    let k = first_space(t, 0);
    if k < t.len() {
        assert(is_white(t[k]));
        let x = t.subrange(k + 1, t.len() as int);
        assert(x.len() > 0);
        assert(x.last() == t.last());
    }
}

} // verus!
