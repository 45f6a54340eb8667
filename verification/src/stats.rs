//! What the store reports about itself: a table of named values, read from
//! the text of its answer.

use vstd::prelude::*;

use crate::text::characters;

verus! {

/// The table that a list of entries makes: each entry sets its name to its
/// value, a later one replacing an earlier one of the same name.
pub open spec fn table_of(entries: Seq<(Seq<char>, Seq<char>)>) -> Map<Seq<char>, Seq<char>>
    decreases entries.len(),
{
    if entries.len() == 0 {
        Map::empty()
    } else {
        table_of(entries.drop_last()).insert(entries.last().0, entries.last().1)
    }
}

/// Whether no two entries of the list have the same name.
pub open spec fn distinct_names(entries: Seq<(Seq<char>, Seq<char>)>) -> bool {
    forall|i: int, j: int|
        0 <= i < j < entries.len() ==> (#[trigger] entries[i]).0 != (#[trigger] entries[j]).0
}

/// A table holds exactly the names of its entries, and under a name that
/// occurs once, the value that stands beside it.
pub proof fn lemma_table_of(entries: Seq<(Seq<char>, Seq<char>)>)
    requires
        distinct_names(entries),
    ensures
        forall|i: int|
            0 <= i < entries.len() ==> table_of(entries).contains_key((#[trigger] entries[i]).0)
                && table_of(entries)[entries[i].0] == entries[i].1,
        forall|name: Seq<char>| #[trigger]
            table_of(entries).contains_key(name) ==> exists|i: int|
                0 <= i < entries.len() && (#[trigger] entries[i]).0 == name,
    decreases entries.len(),
{
    if entries.len() > 0 {
        let front = entries.drop_last();
        lemma_table_of(front);
        assert forall|i: int| 0 <= i < entries.len() implies table_of(entries).contains_key(
            (#[trigger] entries[i]).0,
        ) && table_of(entries)[entries[i].0] == entries[i].1 by {
            if i < front.len() {
                assert(front[i] == entries[i]);
            }
        }
        assert forall|name: Seq<char>| #[trigger]
            table_of(entries).contains_key(name) implies exists|i: int|
            0 <= i < entries.len() && (#[trigger] entries[i]).0 == name by {
            if name == entries.last().0 {
                assert(entries[entries.len() - 1].0 == name);
            } else {
                assert(table_of(front).contains_key(name));
                let i = choose|i: int| 0 <= i < front.len() && (#[trigger] front[i]).0 == name;
                assert(entries[i].0 == name);
            }
        }
    }
}

/// A table of named values, each name once.
#[derive(Debug)]
pub struct CacheInfo {
    entries: Vec<(String, String)>,
}

impl View for CacheInfo {
    type V = Map<Seq<char>, Seq<char>>;

    /// The table as a map from names to values.
    open spec fn view(&self) -> Map<Seq<char>, Seq<char>> {
        table_of(self.pairs())
    }
}

impl CacheInfo {
    /// The entries in the order in which their names first came.
    pub closed spec fn pairs(&self) -> Seq<(Seq<char>, Seq<char>)> {
        Seq::new(self.entries@.len(), |i: int| (self.entries@[i].0@, self.entries@[i].1@))
    }

    /// Whether the table is well formed: no name occurs twice.
    pub closed spec fn wf(&self) -> bool {
        distinct_names(self.pairs())
    }

    /// The empty table.
    pub fn new() -> (table: CacheInfo)
        ensures
            table.wf(),
            table@ == Map::<Seq<char>, Seq<char>>::empty(),
            table.pairs() == Seq::<(Seq<char>, Seq<char>)>::empty(),
    {
        let table = CacheInfo { entries: Vec::new() };
        assert(table.pairs() =~= Seq::<(Seq<char>, Seq<char>)>::empty());
        table
    }

    /// The number of names in the table.
    pub fn len(&self) -> (count: usize)
        requires
            self.wf(),
        ensures
            count == self.pairs().len(),
            count == self@.len(),
            self@.dom().finite(),
    {
        proof {
            self.lemma_len();
        }
        self.entries.len()
    }

    /// A well-formed table has as many names as entries.
    pub proof fn lemma_len(&self)
        requires
            self.wf(),
        ensures
            self@.dom().finite(),
            self@.len() == self.pairs().len(),
    {
        lemma_table_len(self.pairs());
    }

    /// The position of `name` among the entries, if it is there.
    fn position(&self, name: &str) -> (found: Option<usize>)
        ensures
            match found {
                Some(i) => i < self.pairs().len() && self.pairs()[i as int].0 == name@,
                None => forall|i: int|
                    0 <= i < self.pairs().len() ==> (#[trigger] self.pairs()[i]).0 != name@,
            },
    {
        let wanted = name.to_owned();
        let mut i: usize = 0;
        while i < self.entries.len()
            invariant
                i <= self.entries@.len(),
                wanted@ == name@,
                forall|j: int| 0 <= j < i ==> (#[trigger] self.pairs()[j]).0 != name@,
            decreases self.entries@.len() - i,
        {
            if self.entries[i].0 == wanted {
                return Some(i);
            }
            i = i + 1;
        }
        None
    }

    /// The value under `name`, if the table has that name.
    pub fn get(&self, name: &str) -> (value: Option<&String>)
        requires
            self.wf(),
        ensures
            match value {
                Some(text) => self@.contains_key(name@) && self@[name@] == text@,
                None => !self@.contains_key(name@),
            },
    {
        proof {
            lemma_table_of(self.pairs());
        }
        match self.position(name) {
            Some(i) => {
                assert(self.pairs()[i as int].1 == self.entries@[i as int].1@);
                Some(&self.entries[i].1)
            },
            None => None,
        }
    }

    /// Sets `name` to `value`, replacing the value that it had, if any.
    pub fn insert(&mut self, name: String, value: String)
        requires
            old(self).wf(),
        ensures
            final(self).wf(),
            final(self)@ == old(self)@.insert(name@, value@),
    {
        let ghost before = self.pairs();
        proof {
            lemma_table_of(before);
        }
        match self.position(name.as_str()) {
            Some(i) => {
                self.entries.set(i, (name, value));
                let ghost after = self.pairs();
                proof {
                    assert(after =~= before.update(i as int, (name@, value@)));
                    assert forall|a: int, b: int| 0 <= a < b < after.len() implies (
                    #[trigger] after[a]).0 != (#[trigger] after[b]).0 by {
                        assert(before[a].0 != before[b].0);
                    }
                    lemma_table_of(after);
                    assert forall|key: Seq<char>|
                        table_of(after).contains_key(key) == table_of(before).insert(
                            name@,
                            value@,
                        ).contains_key(key) by {
                        if table_of(after).contains_key(key) {
                            let j = choose|j: int|
                                0 <= j < after.len() && (#[trigger] after[j]).0 == key;
                            assert(before[j].0 == key);
                        }
                        if table_of(before).contains_key(key) {
                            let j = choose|j: int|
                                0 <= j < before.len() && (#[trigger] before[j]).0 == key;
                            assert(after[j].0 == key);
                        }
                        assert(after[i as int].0 == name@);
                    }
                    assert forall|key: Seq<char>| table_of(after).contains_key(key) implies (
                    #[trigger] table_of(after)[key]) == table_of(before).insert(
                        name@,
                        value@,
                    )[key] by {
                        let j = choose|j: int|
                            0 <= j < after.len() && (#[trigger] after[j]).0 == key;
                        if j == i {
                        } else {
                            assert(before[j] == after[j]);
                            assert(before[j].0 != before[i as int].0);
                        }
                    }
                    assert(table_of(after) =~= table_of(before).insert(name@, value@));
                }
            },
            None => {
                self.entries.push((name, value));
                let ghost after = self.pairs();
                proof {
                    assert(after =~= before.push((name@, value@)));
                    assert(after.drop_last() =~= before);
                }
            },
        }
    }

    /// Hands the entries out, each name with its value.
    pub fn into_entries(self) -> (entries: Vec<(String, String)>)
        requires
            self.wf(),
        ensures
            entries@.len() == self.pairs().len(),
            forall|i: int|
                0 <= i < entries@.len() ==> (#[trigger] entries@[i]).0@ == self.pairs()[i].0
                    && entries@[i].1@ == self.pairs()[i].1,
    {
        self.entries
    }
}

/// A list of entries with distinct names makes a table of as many names.
pub proof fn lemma_table_len(entries: Seq<(Seq<char>, Seq<char>)>)
    requires
        distinct_names(entries),
    ensures
        table_of(entries).dom().finite(),
        table_of(entries).len() == entries.len(),
    decreases entries.len(),
{
    if entries.len() > 0 {
        let front = entries.drop_last();
        assert forall|i: int, j: int| 0 <= i < j < front.len() implies (#[trigger] front[i]).0 != (
        #[trigger] front[j]).0 by {
            assert(front[i] == entries[i]);
            assert(front[j] == entries[j]);
        }
        lemma_table_len(front);
        lemma_table_of(front);
        if table_of(front).contains_key(entries.last().0) {
            let i = choose|i: int|
                0 <= i < front.len() && (#[trigger] front[i]).0 == entries.last().0;
            assert(entries[i].0 == entries[entries.len() - 1].0);
        }
    }
}

/// The position of the first `mark` in `text`, or the length of `text` if
/// it holds none.
pub open spec fn first_index(text: Seq<char>, mark: char) -> int
    decreases text.len(),
{
    if text.len() == 0 || text[0] == mark {
        0
    } else {
        1 + first_index(text.skip(1), mark)
    }
}

/// `line` without the carriage return at its end, if it ends in one.
pub open spec fn without_return(line: Seq<char>) -> Seq<char> {
    if line.len() > 0 && line.last() == '\r' {
        line.drop_last()
    } else {
        line
    }
}

/// The lines of `text`. A line ends at a line feed, or at a carriage return
/// followed by one; neither belongs to the line. The last line needs no line
/// feed, and a line feed at the very end starts no further line.
pub open spec fn lines(text: Seq<char>) -> Seq<Seq<char>>
    decreases text.len(),
{
    let end = first_index(text, '\n');
    if text.len() == 0 {
        Seq::empty()
    } else if 0 <= end < text.len() {
        seq![without_return(text.take(end))] + lines(text.skip(end + 1))
    } else {
        seq![text]
    }
}

/// The entry that `line` holds, if it holds a colon: the name is what stands
/// before the first colon, the value what stands behind it.
pub open spec fn entry_of(line: Seq<char>) -> Option<(Seq<char>, Seq<char>)> {
    let colon = first_index(line, ':');
    if 0 <= colon < line.len() {
        Some((line.take(colon), line.skip(colon + 1)))
    } else {
        None
    }
}

/// `table` after `line` has been read: with the entry of `line`, if it has one.
pub open spec fn with_line(table: Map<Seq<char>, Seq<char>>, line: Seq<char>) -> Map<
    Seq<char>,
    Seq<char>,
> {
    match entry_of(line) {
        Some((name, value)) => table.insert(name, value),
        None => table,
    }
}

/// `table` after the given lines have been read, first to last.
pub open spec fn with_lines(table: Map<Seq<char>, Seq<char>>, rows: Seq<Seq<char>>) -> Map<
    Seq<char>,
    Seq<char>,
>
    decreases rows.len(),
{
    if rows.len() == 0 {
        table
    } else {
        with_lines(with_line(table, rows[0]), rows.skip(1))
    }
}

/// The table that the text of a report holds: one entry for each line with
/// a colon, a later line replacing an earlier one of the same name.
pub open spec fn info_entries(text: Seq<char>) -> Map<Seq<char>, Seq<char>> {
    with_lines(Map::empty(), lines(text))
}

/// The single entry that stands for a store that cannot be reached.
pub open spec fn unavailable_entries() -> Map<Seq<char>, Seq<char>> {
    Map::<Seq<char>, Seq<char>>::empty().insert("status"@, "unavailable"@)
}

/// Where the first `mark` stands: behind a run of other characters.
pub proof fn lemma_first_index(text: Seq<char>, mark: char, at: int)
    requires
        0 <= at <= text.len(),
        forall|j: int| 0 <= j < at ==> text[j] != mark,
        at < text.len() ==> text[at] == mark,
    ensures
        first_index(text, mark) == at,
    decreases at,
{
    if at > 0 {
        lemma_first_index(text.skip(1), mark, at - 1);
    }
}

/// Splits `line` at its first colon into a name and a value.
pub fn split_entry(line: &str) -> (entry: Option<(String, String)>)
    ensures
        match entry_of(line@) {
            Some((name, value)) => entry matches Some(pair) && pair.0@ == name && pair.1@
                == value,
            None => entry.is_none(),
        },
{
    let marks = characters(line);
    let len = marks.len();
    let mut i: usize = 0;
    while i < len
        invariant
            i <= len,
            len == line@.len(),
            marks@ == line@,
            forall|j: int| 0 <= j < i ==> line@[j] != ':',
        decreases len - i,
    {
        if marks[i] == ':' {
            proof {
                lemma_first_index(line@, ':', i as int);
            }
            let name = line.substring_char(0, i).to_owned();
            let value = line.substring_char(i + 1, len).to_owned();
            assert(name@ =~= line@.take(i as int));
            assert(value@ =~= line@.skip(i + 1));
            return Some((name, value));
        }
        i = i + 1;
    }
    proof {
        lemma_first_index(line@, ':', len as int);
    }
    None
}

/// Reads the entry of `line`, if it has one, into `table`.
fn read_line(table: &mut CacheInfo, line: &str)
    requires
        old(table).wf(),
    ensures
        final(table).wf(),
        final(table)@ == with_line(old(table)@, line@),
{
    match split_entry(line) {
        Some((name, value)) => {
            table.insert(name, value);
        },
        None => {},
    }
}

/// Reads the text of a report into a table.
pub fn parse_info(text: &str) -> (table: CacheInfo)
    ensures
        table.wf(),
        table@ == info_entries(text@),
{
    let marks = characters(text);
    let len = marks.len();
    let mut table = CacheInfo::new();
    let mut start: usize = 0;
    let mut i: usize = 0;
    assert(text@.skip(0) =~= text@);
    while i < len
        invariant
            start <= i <= len,
            len == text@.len(),
            marks@ == text@,
            table.wf(),
            forall|j: int| start <= j < i ==> text@[j] != '\n',
            with_lines(table@, lines(text@.skip(start as int))) == info_entries(text@),
        decreases len - i,
    {
        if marks[i] == '\n' {
            let end: usize = if i > start && marks[i - 1] == '\r' {
                (i - 1) as usize
            } else {
                i
            };
            let line = text.substring_char(start, end);
            let ghost rest = text@.skip(start as int);
            let ghost before = table@;
            proof {
                lemma_first_index(rest, '\n', i - start);
                assert(rest.take(i - start) =~= text@.subrange(start as int, i as int));
                assert(line@ =~= without_return(rest.take(i - start)));
                assert(rest.skip(i - start + 1) =~= text@.skip(i + 1));
                let rows = lines(rest);
                assert(rows[0] == line@);
                assert(rows.skip(1) =~= lines(text@.skip(i + 1)));
            }
            read_line(&mut table, line);
            start = i + 1;
        }
        i = i + 1;
    }
    if start < len {
        let line = text.substring_char(start, len);
        proof {
            let rest = text@.skip(start as int);
            lemma_first_index(rest, '\n', len - start);
            assert(line@ =~= rest);
            let rows = lines(rest);
            assert(rows =~= seq![rest]);
            assert(rows.skip(1) =~= Seq::<Seq<char>>::empty());
            assert(with_lines(with_line(table@, rows[0]), rows.skip(1)) == with_line(
                table@,
                rows[0],
            ));
        }
        read_line(&mut table, line);
    } else {
        assert(text@.skip(start as int) =~= Seq::<char>::empty());
    }
    table
}

/// The table that stands for a store that cannot be reached.
pub fn unavailable_info() -> (table: CacheInfo)
    ensures
        table.wf(),
        table@ == unavailable_entries(),
{
    let mut table = CacheInfo::new();
    table.insert("status".to_owned(), "unavailable".to_owned());
    table
}

} // verus!
