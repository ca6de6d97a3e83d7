//! The servers of the regions: a table from the code of a region to its
//! server, in which no code stands twice.

use crate::backend::MinecraftServer;
use vstd::prelude::*;

verus! {

/// One line of the table.
#[derive(Debug)]
struct RegionEntry {
    code: String,
    server: MinecraftServer,
}

/// A table from the code of a region to the server of that region.
#[derive(Debug)]
pub struct RegionTable {
    entries: Vec<RegionEntry>,
}

/// Whether no code stands twice in `entries`.
pub open spec fn distinct_codes(entries: Seq<(Seq<char>, MinecraftServer)>) -> bool {
    forall|i: int, j: int|
        0 <= i < j < entries.len() ==> (#[trigger] entries[i]).0 != (#[trigger] entries[j]).0
}

/// Whether `code` stands in `entries`.
pub open spec fn has_code(entries: Seq<(Seq<char>, MinecraftServer)>, code: Seq<char>) -> bool {
    exists|i: int| 0 <= i < entries.len() && (#[trigger] entries[i]).0 == code
}

/// A place at which `code` stands in `entries`.
pub open spec fn position_of(entries: Seq<(Seq<char>, MinecraftServer)>, code: Seq<char>) -> int {
    choose|i: int| 0 <= i < entries.len() && (#[trigger] entries[i]).0 == code
}

/// The table that `entries` write: each code with the server beside it.
pub open spec fn table_of(entries: Seq<(Seq<char>, MinecraftServer)>) -> Map<
    Seq<char>,
    MinecraftServer,
> {
    Map::new(|code: Seq<char>| has_code(entries, code), |code: Seq<char>| entries[position_of(entries, code)].1)
}

/// In a table without repeated codes, a code stands where it stands and
/// nowhere else.
pub proof fn lemma_position_of(entries: Seq<(Seq<char>, MinecraftServer)>, i: int)
    requires
        distinct_codes(entries),
        0 <= i < entries.len(),
    ensures
        has_code(entries, entries[i].0),
        position_of(entries, entries[i].0) == i,
{
    let code = entries[i].0;
    let p = position_of(entries, code);
    assert(entries[p].0 == code);
    if p < i {
        assert(entries[p].0 != entries[i].0);
    } else if i < p {
        assert(entries[i].0 != entries[p].0);
    }
}

/// Writing another server beside a code that stands in the table changes
/// the server of that code and nothing else.
pub proof fn lemma_replace(entries: Seq<(Seq<char>, MinecraftServer)>, i: int, server: MinecraftServer)
    requires
        distinct_codes(entries),
        0 <= i < entries.len(),
    ensures
        distinct_codes(entries.update(i, (entries[i].0, server))),
        table_of(entries.update(i, (entries[i].0, server))) == table_of(entries).insert(
            entries[i].0,
            server,
        ),
{
    let code = entries[i].0;
    let after = entries.update(i, (code, server));
    assert forall|a: int, b: int| 0 <= a < b < after.len() implies (#[trigger] after[a]).0 != (
    #[trigger] after[b]).0 by {
        assert(after[a].0 == entries[a].0);
        assert(after[b].0 == entries[b].0);
    }
    assert forall|key: Seq<char>| has_code(after, key) == has_code(entries, key) by {
        if has_code(entries, key) {
            let p = position_of(entries, key);
            assert(after[p].0 == key);
        }
        if has_code(after, key) {
            let p = position_of(after, key);
            assert(entries[p].0 == key);
        }
    }
    lemma_position_of(entries, i);
    assert forall|key: Seq<char>| has_code(after, key) implies #[trigger] table_of(after)[key]
        == table_of(entries).insert(code, server)[key] by {
        let p = position_of(after, key);
        lemma_position_of(after, p);
        assert(entries[p].0 == key);
        lemma_position_of(entries, p);
    }
    assert(table_of(after) =~= table_of(entries).insert(code, server));
}

/// Adding a code that does not stand in the table, with its server, adds
/// that line and changes nothing else.
pub proof fn lemma_add(entries: Seq<(Seq<char>, MinecraftServer)>, code: Seq<char>, server: MinecraftServer)
    requires
        distinct_codes(entries),
        !has_code(entries, code),
    ensures
        distinct_codes(entries.push((code, server))),
        table_of(entries.push((code, server))) == table_of(entries).insert(code, server),
{
    let after = entries.push((code, server));
    assert forall|a: int, b: int| 0 <= a < b < after.len() implies (#[trigger] after[a]).0 != (
    #[trigger] after[b]).0 by {
        assert(after[a] == entries[a]);
        if b < entries.len() {
            assert(after[b] == entries[b]);
        }
    }
    assert forall|key: Seq<char>| has_code(after, key) == (has_code(entries, key) || key == code) by {
        if has_code(entries, key) {
            let p = position_of(entries, key);
            assert(after[p].0 == key);
        }
        if key == code {
            assert(after[entries.len() as int].0 == key);
        }
        if has_code(after, key) {
            let p = position_of(after, key);
            if p < entries.len() {
                assert(entries[p].0 == key);
            }
        }
    }
    assert forall|key: Seq<char>| has_code(after, key) implies #[trigger] table_of(after)[key]
        == table_of(entries).insert(code, server)[key] by {
        let p = position_of(after, key);
        lemma_position_of(after, p);
        if p < entries.len() {
            assert(entries[p] == after[p]);
            lemma_position_of(entries, p);
        }
    }
    assert(table_of(after) =~= table_of(entries).insert(code, server));
}

impl RegionTable {
    /// The lines of the table, in the order in which their codes came in.
    pub closed spec fn entries(&self) -> Seq<(Seq<char>, MinecraftServer)> {
        Seq::new(self.entries.len() as nat, |i: int| (self.entries[i].code@, self.entries[i].server))
    }

    /// Whether no code stands twice.
    pub open spec fn wf(&self) -> bool {
        distinct_codes(self.entries())
    }

    /// The servers of the table, in the order of its lines.
    pub open spec fn servers(&self) -> Seq<MinecraftServer> {
        Seq::new(self.entries().len(), |i: int| self.entries()[i].1)
    }

    /// A table without lines.
    pub fn new() -> (table: RegionTable)
        ensures
            table.wf(),
            table.entries() == Seq::<(Seq<char>, MinecraftServer)>::empty(),
            table@ == Map::<Seq<char>, MinecraftServer>::empty(),
    {
        let table = RegionTable { entries: Vec::new() };
        assert(table.entries() =~= Seq::<(Seq<char>, MinecraftServer)>::empty());
        assert(table@ =~= Map::<Seq<char>, MinecraftServer>::empty());
        table
    }

    /// The number of lines.
    pub fn len(&self) -> (n: usize)
        ensures
            n == self.entries().len(),
    {
        self.entries.len()
    }

    /// The server of line `i`.
    pub fn server_at(&self, i: usize) -> (server: &MinecraftServer)
        requires
            i < self.entries().len(),
        ensures
            *server == self.entries()[i as int].1,
    {
        &self.entries[i].server
    }

    /// Writes `server` beside `code`: in place of the server that stood
    /// there, or in a new line at the end.
    pub fn insert(&mut self, code: String, server: MinecraftServer)
        requires
            old(self).wf(),
        ensures
            final(self).wf(),
            final(self)@ == old(self)@.insert(code@, server),
            final(self).entries() == if has_code(old(self).entries(), code@) {
                old(self).entries().update(
                    position_of(old(self).entries(), code@),
                    (code@, server),
                )
            } else {
                old(self).entries().push((code@, server))
            },
    {
        let ghost before = self.entries();
        let mut i: usize = 0;
        while i < self.entries.len()
            invariant
                i <= self.entries.len(),
                self.entries() == before,
                before == old(self).entries(),
                distinct_codes(before),
                forall|j: int| 0 <= j < i ==> (#[trigger] before[j]).0 != code@,
            decreases self.entries.len() - i,
        {
            if self.entries[i].code == code {
                proof {
                    assert(before[i as int].0 == code@);
                    lemma_position_of(before, i as int);
                    lemma_replace(before, i as int, server);
                }
                self.entries.set(i, RegionEntry { code, server });
                assert(self.entries() =~= before.update(i as int, (code@, server)));
                return ;
            }
            assert(before[i as int].0 != code@);
            i += 1;
        }
        proof {
            lemma_add(before, code@, server);
        }
        self.entries.push(RegionEntry { code, server });
        assert(self.entries() =~= before.push((code@, server)));
    }

    /// The server that stands beside `code`.
    pub fn get(&self, code: &str) -> (found: Option<&MinecraftServer>)
        requires
            self.wf(),
        ensures
            match found {
                Some(server) => self@.dom().contains(code@) && *server == self@[code@],
                None => !self@.dom().contains(code@),
            },
    {
        let ghost lines = self.entries();
        let wanted = code.to_owned();
        let mut i: usize = 0;
        while i < self.entries.len()
            invariant
                i <= self.entries.len(),
                self.entries() == lines,
                distinct_codes(lines),
                wanted@ == code@,
                forall|j: int| 0 <= j < i ==> (#[trigger] lines[j]).0 != code@,
            decreases self.entries.len() - i,
        {
            if self.entries[i].code == wanted {
                proof {
                    assert(lines[i as int].0 == code@);
                    lemma_position_of(lines, i as int);
                }
                return Some(&self.entries[i].server);
            }
            assert(lines[i as int].0 != code@);
            i += 1;
        }
        None
    }
}

impl View for RegionTable {
    type V = Map<Seq<char>, MinecraftServer>;

    /// The table as a map from code to server.
    open spec fn view(&self) -> Map<Seq<char>, MinecraftServer> {
        table_of(self.entries())
    }
}

} // verus!
