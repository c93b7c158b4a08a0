//! The source aggregator: one logical input made of an ordered list of
//! sources, read one after the other with nothing added or lost between them.
use vstd::prelude::*;

verus! {

/// One source of input.
#[derive(Debug, Clone, PartialEq, Eq)]
pub enum SourceSpec {
    /// The standard input.
    Stdin,
    /// The named file.
    File(String),
}

/// The mathematical value of a `SourceSpec`: `None` for the standard input.
pub open spec fn source_view(s: SourceSpec) -> Option<Seq<char>> {
    match s {
        SourceSpec::Stdin => None,
        SourceSpec::File(n) => Some(n@),
    }
}

/// The source that a name denotes: `-` is the standard input.
pub open spec fn source_of(name: Seq<char>) -> Option<Seq<char>> {
    if name == "-"@ {
        None
    } else {
        Some(name)
    }
}

/// The sources that a list of names denotes: the standard input alone for an
/// empty list, else one source per name, in order.
pub open spec fn sources_of(names: Seq<Seq<char>>) -> Seq<Option<Seq<char>>> {
    if names.len() == 0 {
        seq![None]
    } else {
        names.map_values(|n: Seq<char>| source_of(n))
    }
}

/// Whether `s` is the standard-input marker `-`.
fn is_stdin_marker(s: &str) -> (r: bool)
    ensures
        r == (s@ == "-"@),
{
    proof {
        reveal_strlit("-");
    }
    if s.unicode_len() != 1 {
        return false;
    }
    let c = s.get_char(0);
    if c == '-' {
        assert(s@ =~= "-"@);
        true
    } else {
        assert(s@[0] != "-"@[0]);
        false
    }
}

/// The sources to read, in order, for the given names.
pub fn plan_sources(names: &Vec<String>) -> (r: Vec<SourceSpec>)
    ensures
        r@.map_values(|s: SourceSpec| source_view(s)) == sources_of(
            names@.map_values(|n: String| n@),
        ),
{
    let ghost names_view = names@.map_values(|n: String| n@);
    let mut r: Vec<SourceSpec> = Vec::new();
    if names.len() == 0 {
        r.push(SourceSpec::Stdin);
        assert(r@.map_values(|s: SourceSpec| source_view(s)) =~= seq![None::<Seq<char>>]);
        return r;
    }
    let mut i: usize = 0;
    while i < names.len()
        invariant
            i <= names@.len(),
            r@.len() == i,
            names_view == names@.map_values(|n: String| n@),
            r@.map_values(|s: SourceSpec| source_view(s)) == names_view.take(i as int).map_values(
                |n: Seq<char>| source_of(n),
            ),
        decreases names@.len() - i,
    {
        let ghost before = r@;
        let ghost name = names_view[i as int];
        assert(name == names@[i as int]@);
        if is_stdin_marker(names[i].as_str()) {
            r.push(SourceSpec::Stdin);
        } else {
            let copy = names[i].clone();
            assert(copy@ == name);
            r.push(SourceSpec::File(copy));
        }
        assert(source_view(r@[i as int]) == source_of(name));
        assert forall|k: int| 0 <= k < i implies source_view(#[trigger] r@[k]) == source_of(
            names_view[k],
        ) by {
            assert(r@[k] == before[k]);
            assert(before.map_values(|s: SourceSpec| source_view(s))[k] == source_view(before[k]));
            assert(names_view.take(i as int).map_values(|n: Seq<char>| source_of(n))[k]
                == source_of(names_view[k]));
        }
        assert(r@.map_values(|s: SourceSpec| source_view(s)) =~= names_view.take(i + 1).map_values(
            |n: Seq<char>| source_of(n),
        ));
        i = i + 1;
    }
    assert(names_view.take(i as int) =~= names_view);
    r
}

/// The total size to expect: the one given, else the sum of the files' sizes
/// (none when the sum does not fit in 64 bits).
pub open spec fn total_of(explicit: Option<u64>, file_sizes: Seq<u64>) -> Option<u64> {
    match explicit {
        Some(n) => Some(n),
        None => if sum_of(file_sizes) <= u64::MAX {
            Some(sum_of(file_sizes) as u64)
        } else {
            None
        },
    }
}

pub open spec fn sum_of(v: Seq<u64>) -> nat
    decreases v.len(),
{
    if v.len() == 0 {
        0
    } else {
        sum_of(v.drop_last()) + v.last() as nat
    }
}

proof fn lemma_sum_prefix(v: Seq<u64>, k: int)
    requires
        0 <= k <= v.len(),
    ensures
        sum_of(v.take(k)) <= sum_of(v),
    decreases v.len() - k,
{
    if k < v.len() {
        lemma_sum_prefix(v, k + 1);
        assert(v.take(k + 1).drop_last() =~= v.take(k));
    } else {
        assert(v.take(k) =~= v);
    }
}

/// The expected total size of the transfer.
pub fn total_hint(explicit: Option<u64>, file_sizes: &Vec<u64>) -> (r: Option<u64>)
    ensures
        r == total_of(explicit, file_sizes@),
{
    if let Some(n) = explicit {
        return Some(n);
    }
    let mut total: u64 = 0;
    let mut i: usize = 0;
    while i < file_sizes.len()
        invariant
            i <= file_sizes@.len(),
            explicit is None,
            total == sum_of(file_sizes@.take(i as int)),
        decreases file_sizes@.len() - i,
    {
        assert(file_sizes@.take(i + 1).drop_last() =~= file_sizes@.take(i as int));
        assert(file_sizes@.take(i + 1).last() == file_sizes@[i as int]);
        match total.checked_add(file_sizes[i]) {
            Some(t) => total = t,
            None => {
                proof {
                    lemma_sum_prefix(file_sizes@, i + 1);
                    assert(sum_of(file_sizes@.take(i + 1)) == total + file_sizes@[i as int]);
                    assert(sum_of(file_sizes@) > u64::MAX);
                }
                return None;
            },
        }
        i = i + 1;
    }
    assert(file_sizes@.take(i as int) =~= file_sizes@);
    Some(total)
}

/// What follows a read from the current source.
#[derive(Debug, Clone, Copy, PartialEq, Eq, Structural)]
pub enum SourceStep {
    /// The bytes read belong to the input.
    Deliver,
    /// The current source is exhausted: read from the next one.
    NextSource,
    /// The last source is exhausted: the input has ended.
    End,
}

/// A cursor into the ordered list of sources.
pub struct SourceCursor {
    /// How many sources there are.
    pub count: usize,
    /// The one being read.
    pub current: usize,
}

impl SourceCursor {
    pub open spec fn wf(&self) -> bool {
        self.current <= self.count
    }

    /// A cursor at the first of `count` sources.
    pub fn new(count: usize) -> (c: SourceCursor)
        ensures
            c.wf(),
            c.count == count,
            c.current == 0,
    {
        SourceCursor { count, current: 0 }
    }

    /// Whether every source has been read to its end.
    pub fn exhausted(&self) -> (r: bool)
        ensures
            r == (self.current >= self.count),
    {
        self.current >= self.count
    }

    /// Moves on after a read of `len` bytes from the current source: bytes
    /// are delivered as they are; an empty read ends the current source and
    /// moves to the next, or ends the input after the last.
    pub fn after_read(&mut self, len: usize) -> (step: SourceStep)
        requires
            old(self).wf(),
            old(self).current < old(self).count,
        ensures
            final(self).wf(),
            final(self).count == old(self).count,
            len > 0 ==> step == SourceStep::Deliver && final(self).current == old(self).current,
            len == 0 ==> final(self).current == old(self).current + 1,
            len == 0 ==> step == if final(self).current == final(self).count {
                SourceStep::End
            } else {
                SourceStep::NextSource
            },
    {
        if len > 0 {
            return SourceStep::Deliver;
        }
        self.current = self.current + 1;
        if self.current == self.count {
            SourceStep::End
        } else {
            SourceStep::NextSource
        }
    }
}

} // verus!
