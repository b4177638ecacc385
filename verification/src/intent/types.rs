use vstd::prelude::*;

verus! {

/// Types of operations that can be performed on a media file.
#[derive(Debug, Clone, Copy, PartialEq, Eq, Structural)]
pub enum OperationType {
    /// Convert a media file from one format to another
    Convert,
    /// Resize a media file to specific dimensions
    Resize,
    /// Transcode a media file with specific codecs
    Transcode,
    /// Extract audio from a media file
    ExtractAudio,
}

/// Named string options of an operation, at most one value per name.
#[derive(Debug)]
pub struct Parameters {
    entries: Vec<(String, String)>,
}

/// True when no two entries of `entries` carry the same name.
pub open spec fn distinct_names(entries: Seq<(String, String)>) -> bool {
    forall|i: int, j: int|
        0 <= i < entries.len() && 0 <= j < entries.len() && (#[trigger] entries[i]).0@ == (
        #[trigger] entries[j]).0@ ==> i == j
}

/// True when some entry of `entries` is named `name`.
pub open spec fn has_name(entries: Seq<(String, String)>, name: Seq<char>) -> bool {
    exists|i: int| 0 <= i < entries.len() && (#[trigger] entries[i]).0@ == name
}

/// The position of an entry named `name`.
pub open spec fn index_of_name(entries: Seq<(String, String)>, name: Seq<char>) -> int {
    choose|i: int| 0 <= i < entries.len() && (#[trigger] entries[i]).0@ == name
}

/// The mapping from names to values that `entries` stands for.
pub open spec fn entries_map(entries: Seq<(String, String)>) -> Map<Seq<char>, Seq<char>> {
    Map::new(
        |name: Seq<char>| has_name(entries, name),
        |name: Seq<char>| entries[index_of_name(entries, name)].1@,
    )
}

impl View for Parameters {
    type V = Map<Seq<char>, Seq<char>>;

    closed spec fn view(&self) -> Map<Seq<char>, Seq<char>> {
        entries_map(self.entries@)
    }
}

impl Parameters {
    #[verifier::type_invariant]
    spec fn names_are_distinct(&self) -> bool {
        distinct_names(self.entries@)
    }

    /// Creates an empty set of parameters.
    pub fn new() -> (parameters: Self)
        ensures
            parameters@ == Map::<Seq<char>, Seq<char>>::empty(),
    {
        let parameters = Parameters { entries: Vec::new() };
        assert(parameters@ =~= Map::<Seq<char>, Seq<char>>::empty());
        parameters
    }

    /// The number of names that have a value.
    pub fn len(&self) -> (n: usize)
        ensures
            n == self@.len(),
            self@.dom().finite(),
    {
        proof {
            use_type_invariant(self);
            lemma_entries_map_len(self.entries@);
        }
        self.entries.len()
    }

    /// Whether no name has a value.
    pub fn is_empty(&self) -> (empty: bool)
        ensures
            empty == (self@ == Map::<Seq<char>, Seq<char>>::empty()),
    {
        let n = self.entries.len();
        proof {
            if n == 0 {
                assert(self@ =~= Map::<Seq<char>, Seq<char>>::empty());
            } else {
                assert(has_name(self.entries@, self.entries@[0].0@));
                assert(self@.contains_key(self.entries@[0].0@));
            }
        }
        n == 0
    }

    /// Looks up the value stored under `name`.
    pub fn get(&self, name: &str) -> (value: Option<&String>)
        ensures
            match value {
                Some(found) => self@.contains_key(name@) && self@[name@] == found@,
                None => !self@.contains_key(name@),
            },
    {
        proof {
            use_type_invariant(self);
        }
        let wanted = name.to_string();
        match position_of(&self.entries, &wanted) {
            Some(i) => Some(&self.entries[i].1),
            None => None,
        }
    }

    /// Stores `value` under `name`, and returns the value that was stored
    /// there before, if there was one.
    pub fn insert(&mut self, name: String, value: String) -> (previous: Option<String>)
        ensures
            final(self)@ == old(self)@.insert(name@, value@),
            match previous {
                Some(before) => old(self)@.contains_key(name@) && old(self)@[name@] == before@,
                None => !old(self)@.contains_key(name@),
            },
    {
        proof {
            use_type_invariant(&*self);
        }
        let mut taken = Parameters { entries: Vec::new() };
        std::mem::swap(self, &mut taken);
        let mut entries = taken.entries;
        let ghost before = entries@;
        let previous = match position_of(&entries, &name) {
            Some(i) => {
                let mut entry = (name, value);
                std::mem::swap(&mut entries[i], &mut entry);
                proof {
                    lemma_replace_entry(before, entries@, i as int);
                }
                Some(entry.1)
            },
            None => {
                entries.push((name, value));
                proof {
                    lemma_push_entry(before, entries@);
                }
                None
            },
        };
        *self = Parameters { entries };
        previous
    }
}

impl Clone for Parameters {
    fn clone(&self) -> (copy: Self)
        ensures
            copy@ == self@,
    {
        proof {
            use_type_invariant(self);
        }
        let mut entries: Vec<(String, String)> = Vec::new();
        let mut i: usize = 0;
        while i < self.entries.len()
            invariant
                i <= self.entries.len(),
                entries@ == self.entries@.take(i as int),
            decreases self.entries.len() - i,
        {
            entries.push((self.entries[i].0.clone(), self.entries[i].1.clone()));
            i += 1;
        }
        assert(entries@ == self.entries@);
        Parameters { entries }
    }
}

/// Finds the entry named `name`.
fn position_of(entries: &Vec<(String, String)>, name: &String) -> (found: Option<usize>)
    requires
        distinct_names(entries@),
    ensures
        match found {
            Some(i) => i < entries.len() && entries@[i as int].0@ == name@ && has_name(
                entries@,
                name@,
            ) && index_of_name(entries@, name@) == i,
            None => !has_name(entries@, name@),
        },
{
    let mut i: usize = 0;
    while i < entries.len()
        invariant
            i <= entries.len(),
            distinct_names(entries@),
            forall|j: int| 0 <= j < i ==> (#[trigger] entries@[j]).0@ != name@,
        decreases entries.len() - i,
    {
        if entries[i].0 == *name {
            return Some(i);
        }
        i += 1;
    }
    None
}

/// Replacing the value of one entry updates the mapping at that entry's name.
proof fn lemma_replace_entry(
    before: Seq<(String, String)>,
    after: Seq<(String, String)>,
    i: int,
)
    requires
        distinct_names(before),
        0 <= i < before.len(),
        after.len() == before.len(),
        after[i].0@ == before[i].0@,
        forall|j: int| 0 <= j < before.len() && j != i ==> after[j] == before[j],
    ensures
        distinct_names(after),
        entries_map(after) == entries_map(before).insert(after[i].0@, after[i].1@),
{
    assert forall|a: int, b: int|
        0 <= a < after.len() && 0 <= b < after.len() && (#[trigger] after[a]).0@ == (
        #[trigger] after[b]).0@ implies a == b by {
        assert(before[a].0@ == after[a].0@);
        assert(before[b].0@ == after[b].0@);
    }
    let updated = entries_map(before).insert(after[i].0@, after[i].1@);
    assert forall|name: Seq<char>| entries_map(after).contains_key(name) == updated.contains_key(
        name,
    ) by {
        if has_name(after, name) {
            let k = index_of_name(after, name);
            assert(before[k].0@ == name);
        }
        if has_name(before, name) {
            let k = index_of_name(before, name);
            assert(after[k].0@ == name);
        }
        if name == after[i].0@ {
            assert(after[i].0@ == name);
        }
    }
    assert forall|name: Seq<char>| entries_map(after).contains_key(name) implies entries_map(
        after,
    )[name] == updated[name] by {
        let k = index_of_name(after, name);
        assert(before[k].0@ == name);
        if k != i {
            assert(has_name(before, name));
            assert(index_of_name(before, name) == k);
        }
    }
    assert(entries_map(after) =~= updated);
}

/// Appending an entry under a new name adds that name to the mapping.
proof fn lemma_push_entry(before: Seq<(String, String)>, after: Seq<(String, String)>)
    requires
        distinct_names(before),
        after.len() == before.len() + 1,
        forall|j: int| 0 <= j < before.len() ==> after[j] == before[j],
        forall|j: int| 0 <= j < before.len() ==> (#[trigger] before[j]).0@ != after.last().0@,
    ensures
        distinct_names(after),
        entries_map(after) == entries_map(before).insert(after.last().0@, after.last().1@),
{
    let n = before.len() as int;
    assert forall|a: int, b: int|
        0 <= a < after.len() && 0 <= b < after.len() && (#[trigger] after[a]).0@ == (
        #[trigger] after[b]).0@ implies a == b by {
        if a < n {
            assert(before[a].0@ == after[a].0@);
        }
        if b < n {
            assert(before[b].0@ == after[b].0@);
        }
    }
    let updated = entries_map(before).insert(after[n].0@, after[n].1@);
    assert forall|name: Seq<char>| entries_map(after).contains_key(name) == updated.contains_key(
        name,
    ) by {
        if has_name(after, name) {
            let k = index_of_name(after, name);
            if k < n {
                assert(before[k].0@ == name);
            }
        }
        if has_name(before, name) {
            let k = index_of_name(before, name);
            assert(after[k].0@ == name);
        }
        if name == after[n].0@ {
            assert(after[n].0@ == name);
        }
    }
    assert forall|name: Seq<char>| entries_map(after).contains_key(name) implies entries_map(
        after,
    )[name] == updated[name] by {
        let k = index_of_name(after, name);
        if k < n {
            assert(before[k].0@ == name);
            assert(has_name(before, name));
            assert(index_of_name(before, name) == k);
        }
    }
    assert(entries_map(after) =~= updated);
}

/// A list of entries with distinct names stands for a mapping with as many
/// names as the list has entries.
proof fn lemma_entries_map_len(entries: Seq<(String, String)>)
    requires
        distinct_names(entries),
    ensures
        entries_map(entries).dom().finite(),
        entries_map(entries).len() == entries.len(),
    decreases entries.len(),
{
    if entries.len() == 0 {
        assert(entries_map(entries) =~= Map::<Seq<char>, Seq<char>>::empty());
    } else {
        let shorter = entries.drop_last();
        assert forall|a: int, b: int|
            0 <= a < shorter.len() && 0 <= b < shorter.len() && (#[trigger] shorter[a]).0@ == (
            #[trigger] shorter[b]).0@ implies a == b by {
            assert(entries[a].0@ == entries[b].0@);
        }
        lemma_entries_map_len(shorter);
        assert forall|j: int| 0 <= j < shorter.len() implies (#[trigger] shorter[j]).0@
            != entries.last().0@ by {
            assert(entries[j].0@ == shorter[j].0@);
            assert(entries[entries.len() - 1].0@ == entries.last().0@);
        }
        lemma_push_entry(shorter, entries);
        assert(!entries_map(shorter).contains_key(entries.last().0@)) by {
            if has_name(shorter, entries.last().0@) {
                let k = index_of_name(shorter, entries.last().0@);
                assert(shorter[k].0@ == entries.last().0@);
            }
        }
    }
}

/// A user's intent to perform an operation on a media file.
#[derive(Debug)]
pub struct Intent {
    /// The type of operation to perform
    pub operation: OperationType,
    /// The path to the input media file
    pub input_path: String,
    /// The path where the output media file should be saved
    pub output_path: String,
    /// Additional parameters for the operation
    pub parameters: Parameters,
}

/// What an [`Intent`] says, with its texts as character sequences.
pub struct IntentView {
    pub operation: OperationType,
    pub input_path: Seq<char>,
    pub output_path: Seq<char>,
    pub parameters: Map<Seq<char>, Seq<char>>,
}

impl View for Intent {
    type V = IntentView;

    open spec fn view(&self) -> IntentView {
        IntentView {
            operation: self.operation,
            input_path: self.input_path@,
            output_path: self.output_path@,
            parameters: self.parameters@,
        }
    }
}

impl Clone for Intent {
    fn clone(&self) -> (copy: Self)
        ensures
            copy@ == self@,
    {
        Intent {
            operation: self.operation,
            input_path: self.input_path.clone(),
            output_path: self.output_path.clone(),
            parameters: self.parameters.clone(),
        }
    }
}

} // verus!
