//! Flattens a configuration table into `keya.keyb.keyc = value` lines, the
//! form in which a running terminal takes configuration updates.
//!
//! Values are written as they stand in the source format, and an array is
//! one value: it gets a single line and is never descended into.

use vstd::prelude::*;
use vstd::string::*;

verus! {

/// A configuration value as mathematics: the model that the contracts of
/// this module speak of.
pub enum Tree {
    /// A primitive, by the literal it has in the source format.
    Scalar(Seq<char>),
    /// An array, by its literal as a whole.
    Array(Seq<char>),
    /// A table: keys with their values, in document order.
    Table(Seq<(Seq<char>, Tree)>),
}

/// A value of a configuration document.
#[derive(Debug, PartialEq, Eq)]
pub enum ConfigValue {
    /// A string, integer, float, boolean or timestamp, held as the literal
    /// it has in the source format.
    Scalar(String),
    /// An array, held whole as its literal in the source format.
    Array(String),
    /// A nested table.
    Table(ConfigTable),
}

/// A table of a configuration document: keys with their values, in the
/// order of the document, no key twice.
#[derive(Debug, PartialEq, Eq)]
pub struct ConfigTable {
    entries: Vec<(String, ConfigValue)>,
}

/// The models of a run of table entries.
pub closed spec fn entries_model(entries: Seq<(String, ConfigValue)>) -> Seq<(Seq<char>, Tree)>
    decreases entries,
{
    if entries.len() == 0 {
        Seq::empty()
    } else {
        entries_model(entries.drop_last()).push((entries.last().0@, entries.last().1@))
    }
}

impl View for ConfigValue {
    type V = Tree;

    open spec fn view(&self) -> Tree
        decreases self,
    {
        match self {
            ConfigValue::Scalar(literal) => Tree::Scalar(literal@),
            ConfigValue::Array(literal) => Tree::Array(literal@),
            ConfigValue::Table(table) => Tree::Table(table@),
        }
    }
}

impl View for ConfigTable {
    type V = Seq<(Seq<char>, Tree)>;

    closed spec fn view(&self) -> Seq<(Seq<char>, Tree)>
        decreases self,
    {
        entries_model(self.entries@)
    }
}

/// Where `key` stands in a run of entries, if it does.
pub open spec fn position(entries: Seq<(Seq<char>, Tree)>, key: Seq<char>) -> Option<int> {
    if exists|i: int| 0 <= i < entries.len() && #[trigger] entries[i].0 == key {
        Some(choose|i: int| 0 <= i < entries.len() && #[trigger] entries[i].0 == key)
    } else {
        None
    }
}

/// The entries after `value` was put under `key`: in the place of the
/// value that the key had, or at the end if the key is new.
pub open spec fn put(entries: Seq<(Seq<char>, Tree)>, key: Seq<char>, value: Tree) -> Seq<
    (Seq<char>, Tree),
> {
    match position(entries, key) {
        Some(i) => entries.update(i, (key, value)),
        None => entries.push((key, value)),
    }
}

/// No key stands twice among the entries.
pub open spec fn distinct_keys(entries: Seq<(Seq<char>, Tree)>) -> bool {
    forall|i: int, j: int|
        0 <= i < j < entries.len() ==> (#[trigger] entries[i]).0 != (#[trigger] entries[j]).0
}

impl Tree {
    /// No table in the value, at any depth, has a key twice.
    pub open spec fn well_formed(self) -> bool
        decreases self,
    {
        match self {
            Tree::Scalar(_) => true,
            Tree::Array(_) => true,
            Tree::Table(entries) => table_well_formed(entries),
        }
    }
}

/// No key stands twice among the entries, nor in any table below them.
pub open spec fn table_well_formed(entries: Seq<(Seq<char>, Tree)>) -> bool
    decreases entries,
{
    &&& distinct_keys(entries)
    &&& forall|i: int| 0 <= i < entries.len() ==> (#[trigger] entries[i]).1.well_formed()
}

/// Putting a well-formed value into a well-formed table leaves the table
/// well-formed: the key takes the place it had, or a new place at the end.
pub proof fn lemma_put_well_formed(entries: Seq<(Seq<char>, Tree)>, key: Seq<char>, value: Tree)
    requires
        table_well_formed(entries),
        value.well_formed(),
    ensures
        table_well_formed(put(entries, key, value)),
{
    let after = put(entries, key, value);
    assert forall|i: int| 0 <= i < after.len() implies (#[trigger] after[i]).1.well_formed() by {
        if i < entries.len() && position(entries, key) != Some(i) {
            assert(entries[i].1.well_formed());
        }
    }
}

/// The model of a run of entries has an entry for each, in the same place.
proof fn lemma_model_index(entries: Seq<(String, ConfigValue)>)
    ensures
        entries_model(entries).len() == entries.len(),
        forall|i: int|
            0 <= i < entries.len() ==> #[trigger] entries_model(entries)[i] == (
                entries[i].0@,
                entries[i].1@,
            ),
    decreases entries.len(),
{
    if entries.len() > 0 {
        lemma_model_index(entries.drop_last());
        assert(entries_model(entries) == entries_model(entries.drop_last()).push(
            (entries.last().0@, entries.last().1@),
        ));
    }
}

impl ConfigTable {
    #[verifier::type_invariant]
    spec fn sound(self) -> bool {
        table_well_formed(entries_model(self.entries@))
    }

    /// The empty table.
    pub fn new() -> (table: ConfigTable)
        ensures
            table@ == Seq::<(Seq<char>, Tree)>::empty(),
    {
        ConfigTable { entries: Vec::new() }
    }

    /// Puts `value` under `key`. A key that the table has keeps its place
    /// and gets the new value; a new key goes to the end. Before and after,
    /// no table in it has a key twice.
    pub fn insert(&mut self, key: String, value: ConfigValue)
        ensures
            final(self)@ == put(old(self)@, key@, value@),
            table_well_formed(old(self)@),
            table_well_formed(final(self)@),
    {
        proof {
            use_type_invariant(&*self);
            lemma_model_index(self.entries@);
        }
        match &value {
            ConfigValue::Scalar(_) => {},
            ConfigValue::Array(_) => {},
            ConfigValue::Table(table) => {
                proof {
                    use_type_invariant(table);
                }
            },
        }
        let mut entries: Vec<(String, ConfigValue)> = Vec::new();
        std::mem::swap(&mut entries, &mut self.entries);
        let ghost before = entries@;
        let n = entries.len();
        let mut i: usize = 0;
        while i < n && !(entries[i].0 == key)
            invariant
                i <= n,
                n == entries.len(),
                entries@ == before,
                forall|j: int| 0 <= j < i ==> (#[trigger] entries[j]).0@ != key@,
            decreases n - i,
        {
            i = i + 1;
        }
        if i < n {
            entries.set(i, (key, value));
            assert(entries_model(before)[i as int].0 == key@);
        } else {
            entries.push((key, value));
        }
        proof {
            lemma_model_index(entries@);
            assert(entries_model(entries@) =~= put(entries_model(before), key@, value@));
            lemma_put_well_formed(entries_model(before), key@, value@);
        }
        self.entries = entries;
    }
}

/// The dotted path of `key` under `path`; at the top level, where `path`
/// is empty, the key alone.
pub open spec fn join_path(path: Seq<char>, key: Seq<char>) -> Seq<char> {
    if path.len() == 0 {
        key
    } else {
        path + "."@ + key
    }
}

/// The line for a leaf: its dotted path, ` = `, and its literal.
pub open spec fn assignment(path: Seq<char>, key: Seq<char>, literal: Seq<char>) -> Seq<char> {
    join_path(path, key) + " = "@ + literal
}

impl Tree {
    /// The lines of the value that stands under `key` in a table at `path`:
    /// one for a leaf, those of its entries for a table.
    pub open spec fn lines(self, path: Seq<char>, key: Seq<char>) -> Seq<Seq<char>>
        decreases self,
    {
        match self {
            Tree::Scalar(literal) => seq![assignment(path, key, literal)],
            Tree::Array(literal) => seq![assignment(path, key, literal)],
            Tree::Table(entries) => table_lines(entries, join_path(path, key)),
        }
    }

    /// How many leaves, scalars and arrays, the value holds.
    pub open spec fn leaves(self) -> nat
        decreases self,
    {
        match self {
            Tree::Scalar(_) => 1,
            Tree::Array(_) => 1,
            Tree::Table(entries) => table_leaves(entries),
        }
    }
}

/// The lines of a table at `path`: those of its entries, one entry after
/// the other in document order.
pub open spec fn table_lines(entries: Seq<(Seq<char>, Tree)>, path: Seq<char>) -> Seq<Seq<char>>
    decreases entries,
{
    if entries.len() == 0 {
        Seq::empty()
    } else {
        table_lines(entries.drop_last(), path) + entries.last().1.lines(path, entries.last().0)
    }
}

/// How many leaves the entries of a table hold, nested tables included.
pub open spec fn table_leaves(entries: Seq<(Seq<char>, Tree)>) -> nat
    decreases entries,
{
    if entries.len() == 0 {
        0
    } else {
        table_leaves(entries.drop_last()) + entries.last().1.leaves()
    }
}

/// The model of a run of entries grows with the run, one entry at a time.
proof fn lemma_model_step(entries: Seq<(String, ConfigValue)>, i: int)
    requires
        0 <= i < entries.len(),
    ensures
        entries_model(entries.take(i + 1)) == entries_model(entries.take(i)).push(
            (entries[i].0@, entries[i].1@),
        ),
{
    assert(entries.take(i + 1).drop_last() =~= entries.take(i));
}

/// The lines of a table with one more entry at its end are the lines of
/// the table followed by those of the entry.
pub proof fn lemma_lines_push(
    entries: Seq<(Seq<char>, Tree)>,
    key: Seq<char>,
    value: Tree,
    path: Seq<char>,
)
    ensures
        table_lines(entries.push((key, value)), path) == table_lines(entries, path) + value.lines(
            path,
            key,
        ),
{
    assert(entries.push((key, value)).drop_last() =~= entries);
}

/// The dotted path of `key` under `path`.
fn dotted(path: &str, key: &str) -> (r: String)
    ensures
        r@ == join_path(path@, key@),
{
    if path.is_empty() {
        key.to_owned()
    } else {
        let mut joined = path.to_owned();
        joined.append(".");
        joined.append(key);
        joined
    }
}

/// The line that assigns `literal` to `key` under `path`.
fn assign(path: &str, key: &str, literal: &str) -> (r: String)
    ensures
        r@ == assignment(path@, key@, literal@),
{
    let mut line = dotted(path, key);
    line.append(" = ");
    line.append(literal);
    line
}

/// Appends to `res` the lines of `table`, which stands at `current_path`
/// (empty at the top level): one line per leaf, in document order, the
/// entries of a nested table in the place of that table.
fn subtable(table: &ConfigTable, res: &mut Vec<String>, current_path: &str)
    ensures
        final(res).deep_view() == old(res).deep_view() + table_lines(table@, current_path@),
    decreases table,
{
    let n = table.entries.len();
    let mut i: usize = 0;
    while i < n
        invariant
            i <= n,
            n == table.entries.len(),
            res.deep_view() == old(res).deep_view() + table_lines(
                entries_model(table.entries@.take(i as int)),
                current_path@,
            ),
        decreases n - i,
    {
        let ghost before = res.deep_view();
        let ghost done = entries_model(table.entries@.take(i as int));
        let entry = &table.entries[i];
        proof {
            lemma_model_step(table.entries@, i as int);
            lemma_lines_push(done, entry.0@, entry.1@, current_path@);
        }
        match &entry.1 {
            ConfigValue::Scalar(literal) => {
                let line = assign(current_path, entry.0.as_str(), literal.as_str());
                res.push(line);
                assert(res.deep_view() =~= before.push(line@));
            },
            ConfigValue::Array(literal) => {
                let line = assign(current_path, entry.0.as_str(), literal.as_str());
                res.push(line);
                assert(res.deep_view() =~= before.push(line@));
            },
            ConfigValue::Table(inner) => {
                let path = dotted(current_path, entry.0.as_str());
                subtable(inner, res, path.as_str());
            },
        }
        i = i + 1;
    }
    assert(table.entries@.take(n as int) =~= table.entries@);
}

/// A table has exactly one line for each leaf it holds, at any depth, and
/// none for a table: as many lines as leaves.
pub proof fn lemma_one_line_per_leaf(entries: Seq<(Seq<char>, Tree)>, path: Seq<char>)
    ensures
        table_lines(entries, path).len() == table_leaves(entries),
    decreases entries,
{
    if entries.len() > 0 {
        lemma_one_line_per_leaf(entries.drop_last(), path);
        lemma_lines_of_value(entries.last().1, path, entries.last().0);
    }
}

/// A value has exactly one line for each leaf it holds: one if it is a
/// scalar or an array, those of its entries if it is a table.
pub proof fn lemma_lines_of_value(value: Tree, path: Seq<char>, key: Seq<char>)
    ensures
        value.lines(path, key).len() == value.leaves(),
    decreases value,
{
    match value {
        Tree::Scalar(_) => {},
        Tree::Array(_) => {},
        Tree::Table(entries) => {
            lemma_one_line_per_leaf(entries, join_path(path, key));
        },
    }
}

/// Document order is kept: the lines of entries that follow one another
/// are the lines of the first ones followed by the lines of the rest.
pub proof fn lemma_lines_in_order(
    first: Seq<(Seq<char>, Tree)>,
    rest: Seq<(Seq<char>, Tree)>,
    path: Seq<char>,
)
    ensures
        table_lines(first + rest, path) == table_lines(first, path) + table_lines(rest, path),
    decreases rest.len(),
{
    if rest.len() > 0 {
        lemma_lines_in_order(first, rest.drop_last(), path);
        assert((first + rest).drop_last() =~= first + rest.drop_last());
    }
}

/// Flattening is a function of the table alone: whatever two runs on one
/// table return, line for line it is the same.
pub proof fn lemma_flatten_twice(raw: ConfigTable, first: Vec<String>, second: Vec<String>)
    requires
        first.deep_view() == table_lines(raw@, Seq::empty()),
        second.deep_view() == table_lines(raw@, Seq::empty()),
    ensures
        first.deep_view() == second.deep_view(),
        first.len() == second.len(),
        forall|i: int| 0 <= i < first.len() ==> (#[trigger] first[i])@ == second[i]@,
{
    assert(second.deep_view().len() == second.len());
    assert forall|i: int| 0 <= i < first.len() implies (#[trigger] first[i])@ == second[i]@ by {
        assert(second.deep_view()[i] == second[i]@);
    }
}

/// Flattens a configuration table: one `dotted.path = literal` line for
/// each scalar and each array, in document order, none for a table itself.
pub fn settings(raw: ConfigTable) -> (res: Vec<String>)
    ensures
        res.deep_view() == table_lines(raw@, Seq::empty()),
        res.len() == table_leaves(raw@),
{
    let mut res: Vec<String> = Vec::new();
    proof {
        reveal_strlit("");
        lemma_one_line_per_leaf(raw@, Seq::empty());
    }
    subtable(&raw, &mut res, "");
    assert(""@ =~= Seq::<char>::empty());
    res
}

} // verus!
