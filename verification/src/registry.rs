//! The table of commands: every name and alias, bound to the command's handler.
//!
//! The table is built once from the list of commands. A name or alias that
//! occurs twice in the list makes the list ambiguous, and no table is built
//! from it.

use vstd::hash_map::StringHashMap;
use vstd::prelude::*;

verus! {

/// A command: the name it is called by, further names for it, and what runs it.
#[derive(Debug)]
pub struct Command<H> {
    /// The name of the command.
    pub name: &'static str,
    /// Other names by which the command can be called.
    pub aliases: &'static [&'static str],
    /// The handler of the command.
    pub run: H,
}

impl<H> Command<H> {
    /// The name and the aliases of the command, in the order they are declared.
    pub open spec fn keys(&self) -> Seq<Seq<char>> {
        Seq::new(
            1 + self.aliases@.len(),
            |k: int|
                if k == 0 {
                    self.name@
                } else {
                    self.aliases@[k - 1]@
                },
        )
    }
}

/// The names and aliases of all of `cmds`, command after command.
pub open spec fn names<H>(cmds: Seq<Command<H>>) -> Seq<Seq<char>>
    decreases cmds.len(),
{
    if cmds.len() == 0 {
        Seq::empty()
    } else {
        names(cmds.drop_last()) + cmds.last().keys()
    }
}

/// The handler that stands behind each of `names(cmds)`, in the same order.
spec fn handlers<H>(cmds: Seq<Command<H>>) -> Seq<H>
    decreases cmds.len(),
{
    if cmds.len() == 0 {
        Seq::empty()
    } else {
        handlers(cmds.drop_last()) + Seq::new(cmds.last().keys().len(), |k: int| cmds.last().run)
    }
}

/// Whether the name at `at` is the first in `all` to repeat an earlier one.
pub open spec fn first_repeat(all: Seq<Seq<char>>, at: int) -> bool {
    &&& 0 <= at < all.len()
    &&& all.take(at).no_duplicates()
    &&& all.take(at).contains(all[at])
}

/// Whether `name` is the first name of `all` to repeat an earlier one.
pub open spec fn repeats_first(all: Seq<Seq<char>>, name: Seq<char>) -> bool {
    exists|at: int| first_repeat(all, at) && name == #[trigger] all[at]
}

/// Whether `table` holds the keys `keys` and no others, none of them twice
/// in `keys`, each bound to the value at its place in `values`.
spec fn pairs<H>(table: Map<Seq<char>, H>, keys: Seq<Seq<char>>, values: Seq<H>) -> bool {
    &&& keys.len() == values.len()
    &&& keys.no_duplicates()
    &&& forall|key: Seq<char>| table.contains_key(key) <==> keys.contains(key)
    &&& forall|at: int| 0 <= at < keys.len() ==> table[#[trigger] keys[at]] == values[at]
}

/// A table that pairs keys with values still does so when a key that it lacks
/// is bound and written at the end.
proof fn lemma_pairs_push<H>(
    table: Map<Seq<char>, H>,
    keys: Seq<Seq<char>>,
    values: Seq<H>,
    key: Seq<char>,
    value: H,
)
    requires
        pairs(table, keys, values),
        !table.contains_key(key),
    ensures
        pairs(table.insert(key, value), keys.push(key), values.push(value)),
{
    let grown = keys.push(key);
    let bound = table.insert(key, value);
    assert(grown[keys.len() as int] == key);
    assert forall|other: Seq<char>| bound.contains_key(other) <==> grown.contains(other) by {
        if keys.contains(other) {
            let at = choose|at: int| 0 <= at < keys.len() && keys[at] == other;
            assert(grown[at] == other);
        }
        if grown.contains(other) {
            let at = choose|at: int| 0 <= at < grown.len() && grown[at] == other;
            if at < keys.len() {
                assert(keys[at] == other);
            }
        }
    }
    assert forall|at: int| 0 <= at < grown.len() implies bound[#[trigger] grown[at]]
        == values.push(value)[at] by {
        if at < keys.len() {
            assert(keys[at] == grown[at]);
            assert(keys.contains(keys[at]));
        }
    }
    assert forall|a: int, b: int|
        0 <= a < grown.len() && 0 <= b < grown.len() && a != b implies grown[a] != grown[b] by {
        if a < keys.len() {
            assert(keys.contains(keys[a]));
        }
        if b < keys.len() {
            assert(keys.contains(keys[b]));
        }
    }
}

/// The names of the first `n` commands open the names of all of them.
proof fn lemma_names_prefix<H>(cmds: Seq<Command<H>>, n: int)
    requires
        0 <= n <= cmds.len(),
    ensures
        names(cmds.take(n)).len() <= names(cmds).len(),
        names(cmds.take(n)) == names(cmds).take(names(cmds.take(n)).len() as int),
    decreases cmds.len(),
{
    if n == cmds.len() {
        assert(cmds.take(n) =~= cmds);
        assert(names(cmds).take(names(cmds).len() as int) =~= names(cmds));
    } else {
        let front = cmds.drop_last();
        assert(front.take(n) =~= cmds.take(n));
        lemma_names_prefix(front, n);
        assert(names(front).take(names(cmds.take(n)).len() as int) =~= names(cmds).take(
            names(cmds.take(n)).len() as int,
        ));
    }
}

/// The names up to and with those of command `n` are those before it,
/// followed by its own, and so for the handlers.
proof fn lemma_names_step<H>(cmds: Seq<Command<H>>, n: int)
    requires
        0 <= n < cmds.len(),
    ensures
        names(cmds.take(n + 1)) == names(cmds.take(n)) + cmds[n].keys(),
        handlers(cmds.take(n + 1)) == handlers(cmds.take(n)) + Seq::new(
            cmds[n].keys().len(),
            |k: int| cmds[n].run,
        ),
{
    assert(cmds.take(n + 1).drop_last() =~= cmds.take(n));
}

/// Each name and alias of a command stands among the names of the list, with
/// the command's handler at the same place among the handlers.
proof fn lemma_names_hold<H>(cmds: Seq<Command<H>>, i: int, k: int) -> (at: int)
    requires
        0 <= i < cmds.len(),
        0 <= k < cmds[i].keys().len(),
    ensures
        names(cmds).len() == handlers(cmds).len(),
        0 <= at < names(cmds).len(),
        names(cmds)[at] == cmds[i].keys()[k],
        handlers(cmds)[at] == cmds[i].run,
    decreases cmds.len(),
{
    lemma_names_len(cmds);
    let front = names(cmds.drop_last());
    if i == cmds.len() - 1 {
        lemma_names_len(cmds.drop_last());
        front.len() + k
    } else {
        lemma_names_hold(cmds.drop_last(), i, k)
    }
}

/// There are as many handlers as names.
proof fn lemma_names_len<H>(cmds: Seq<Command<H>>)
    ensures
        names(cmds).len() == handlers(cmds).len(),
    decreases cmds.len(),
{
    if cmds.len() > 0 {
        lemma_names_len(cmds.drop_last());
    }
}

/// Where the names seen so far hold the next name of the list already, that
/// name is the first to repeat an earlier one.
proof fn lemma_repeat(all: Seq<Seq<char>>, seen: Seq<Seq<char>>)
    requires
        seen.len() < all.len(),
        seen == all.take(seen.len() as int),
        seen.no_duplicates(),
        seen.contains(all[seen.len() as int]),
    ensures
        first_repeat(all, seen.len() as int),
        !all.no_duplicates(),
{
    let at = seen.len() as int;
    let earlier = choose|e: int| 0 <= e < seen.len() && seen[e] == all[at];
    assert(all[earlier] == all[at]);
}

/// Whether command `i` of `cmds` has a name or alias number `k`, its name being number 0.
pub open spec fn is_place<H>(cmds: Seq<Command<H>>, i: int, k: int) -> bool {
    0 <= i < cmds.len() && 0 <= k < cmds[i].keys().len()
}

/// Whether no name or alias stands at two places of `cmds`: neither in two
/// commands nor twice in one.
pub open spec fn distinct_names<H>(cmds: Seq<Command<H>>) -> bool {
    forall|i: int, k: int, j: int, l: int|
        #![trigger cmds[i].keys()[k], cmds[j].keys()[l]]
        is_place(cmds, i, k) && is_place(cmds, j, l) && (i != j || k != l) ==> cmds[i].keys()[k]
            != cmds[j].keys()[l]
}

/// Where name or alias number `k` of command `i` stands among the names of the list.
spec fn index_of<H>(cmds: Seq<Command<H>>, i: int, k: int) -> int {
    names(cmds.take(i)).len() + k
}

/// The name at a place of the list stands at the index of that place.
proof fn lemma_index_holds<H>(cmds: Seq<Command<H>>, i: int, k: int)
    requires
        is_place(cmds, i, k),
    ensures
        0 <= index_of(cmds, i, k) < names(cmds.take(i + 1)).len() <= names(cmds).len(),
        names(cmds)[index_of(cmds, i, k)] == cmds[i].keys()[k],
{
    lemma_names_prefix(cmds, i + 1);
    lemma_names_step(cmds, i);
    let upto = names(cmds.take(i + 1));
    assert(upto[index_of(cmds, i, k)] == cmds[i].keys()[k]);
    assert(names(cmds).take(upto.len() as int)[index_of(cmds, i, k)] == names(cmds)[index_of(
        cmds,
        i,
        k,
    )]);
}

/// The names of fewer commands are fewer.
proof fn lemma_names_grow<H>(cmds: Seq<Command<H>>, i: int, j: int)
    requires
        0 <= i <= j <= cmds.len(),
    ensures
        names(cmds.take(i)).len() <= names(cmds.take(j)).len(),
{
    lemma_names_prefix(cmds.take(j), i);
    assert(cmds.take(j).take(i) =~= cmds.take(i));
}

/// Different places have different indices.
proof fn lemma_index_apart<H>(cmds: Seq<Command<H>>, i: int, k: int, j: int, l: int)
    requires
        is_place(cmds, i, k),
        is_place(cmds, j, l),
        i != j || k != l,
    ensures
        index_of(cmds, i, k) != index_of(cmds, j, l),
{
    lemma_index_holds(cmds, i, k);
    lemma_index_holds(cmds, j, l);
    if i < j {
        lemma_names_grow(cmds, i + 1, j);
    } else if j < i {
        lemma_names_grow(cmds, j + 1, i);
    }
}

/// Every index among the names of the list is the index of a place.
proof fn lemma_index_place<H>(cmds: Seq<Command<H>>, at: int) -> (place: (int, int))
    requires
        0 <= at < names(cmds).len(),
    ensures
        is_place(cmds, place.0, place.1),
        index_of(cmds, place.0, place.1) == at,
    decreases cmds.len(),
{
    let rest = cmds.drop_last();
    let front = names(rest);
    if at < front.len() {
        let place = lemma_index_place(rest, at);
        assert(rest.take(place.0) =~= cmds.take(place.0));
        place
    } else {
        assert(cmds.take(cmds.len() - 1) =~= rest);
        (cmds.len() - 1, at - front.len())
    }
}

/// The names of a list, written one after another, hold nothing twice if
/// and only if no name or alias stands at two places of the list.
pub proof fn lemma_names_unique<H>(cmds: Seq<Command<H>>)
    ensures
        names(cmds).no_duplicates() <==> distinct_names(cmds),
{
    let all = names(cmds);
    if all.no_duplicates() {
        assert forall|i: int, k: int, j: int, l: int|
            #![trigger cmds[i].keys()[k], cmds[j].keys()[l]]
            is_place(cmds, i, k) && is_place(cmds, j, l) && (i != j || k != l)
            implies cmds[i].keys()[k] != cmds[j].keys()[l] by {
            lemma_index_holds(cmds, i, k);
            lemma_index_holds(cmds, j, l);
            lemma_index_apart(cmds, i, k, j, l);
        }
    }
    if distinct_names(cmds) {
        assert forall|a: int, b: int|
            0 <= a < all.len() && 0 <= b < all.len() && a != b implies all[a] != all[b] by {
            let (i, k) = lemma_index_place(cmds, a);
            let (j, l) = lemma_index_place(cmds, b);
            lemma_index_holds(cmds, i, k);
            lemma_index_holds(cmds, j, l);
            assert(cmds[i].keys()[k] != cmds[j].keys()[l]);
        }
    }
}

/// Why no table was built: a name or alias that the list of commands holds twice.
#[derive(Debug, PartialEq, Eq)]
pub struct Duplicate {
    /// The name at its second occurrence, the first place where the list repeats itself.
    pub name: String,
}

impl Duplicate {
    /// What `message` says of the name `name`.
    pub open spec fn message_text(name: Seq<char>) -> Seq<char> {
        "command `"@ + name + "` has been defined multiple times"@
    }

    /// A sentence that names the command defined twice.
    pub fn message(&self) -> (text: String)
        ensures
            text@ == Self::message_text(self.name@),
    {
        let mut text = String::from_str("command `");
        text.append(self.name.as_str());
        text.append("` has been defined multiple times");
        text
    }
}

/// The table of commands, from each name and alias to the handler of its command.
#[verifier::reject_recursive_types(H)]
pub struct Commands<H> {
    table: StringHashMap<H>,
}

impl<H> View for Commands<H> {
    type V = Map<Seq<char>, H>;

    closed spec fn view(&self) -> Map<Seq<char>, H> {
        self.table@
    }
}

impl<H: Copy> Commands<H> {
    /// Whether `table` is the table of `cmds`: it holds their names and
    /// aliases and nothing else, each bound to the handler of its command.
    pub open spec fn binds(table: Map<Seq<char>, H>, cmds: Seq<Command<H>>) -> bool {
        &&& forall|key: Seq<char>| table.contains_key(key) <==> names(cmds).contains(key)
        &&& forall|i: int, k: int|
            is_place(cmds, i, k) ==> table[#[trigger] cmds[i].keys()[k]] == cmds[i].run
    }

    /// A table that pairs the names of `cmds` with their handlers is the
    /// table of `cmds`.
    proof fn lemma_pairs_bind(table: Map<Seq<char>, H>, cmds: Seq<Command<H>>)
        requires
            pairs(table, names(cmds), handlers(cmds)),
        ensures
            Self::binds(table, cmds),
    {
        assert forall|i: int, k: int|
            is_place(cmds, i, k) implies table[#[trigger] cmds[i].keys()[k]] == cmds[i].run by {
            let at = lemma_names_hold(cmds, i, k);
            assert(table[names(cmds)[at]] == handlers(cmds)[at]);
        }
    }

    /// In the table of a list of commands, each alias of a command is bound
    /// to what the command's name is bound to: the command's handler.
    pub proof fn lemma_alias_shares_handler(
        table: Map<Seq<char>, H>,
        cmds: Seq<Command<H>>,
        i: int,
        k: int,
    )
        requires
            Self::binds(table, cmds),
            0 <= i < cmds.len(),
            0 <= k < cmds[i].aliases@.len(),
        ensures
            table.contains_key(cmds[i].name@),
            table.contains_key(cmds[i].aliases@[k]@),
            table[cmds[i].name@] == cmds[i].run,
            table[cmds[i].aliases@[k]@] == cmds[i].run,
    {
        let at_name = lemma_names_hold(cmds, i, 0);
        let at_alias = lemma_names_hold(cmds, i, k + 1);
        assert(cmds[i].keys()[0] == cmds[i].name@);
        assert(cmds[i].keys()[k + 1] == cmds[i].aliases@[k]@);
    }

    /// Binds `key` to `run`, unless `key` is bound already.
    fn bind(table: &mut StringHashMap<H>, key: &str, run: H) -> (fresh: bool)
        ensures
            fresh == !old(table)@.contains_key(key@),
            final(table)@ == if fresh {
                old(table)@.insert(key@, run)
            } else {
                old(table)@
            },
    {
        if table.contains_key(key) {
            false
        } else {
            table.insert(String::from_str(key), run);
            true
        }
    }

    /// Binds the names and aliases of `cmds` one by one, and stops at the
    /// first that is bound already.
    fn fill(cmds: &[Command<H>]) -> (filled: (Self, Option<Duplicate>))
        ensures
            filled.1 is None <==> names(cmds@).no_duplicates(),
            match filled.1 {
                None => Self::binds(filled.0@, cmds@),
                Some(duplicate) => repeats_first(names(cmds@), duplicate.name@),
            },
    {
        let mut table: StringHashMap<H> = StringHashMap::new();
        let ghost all = names(cmds@);
        let ghost mut keys: Seq<Seq<char>> = Seq::empty();
        let ghost mut values: Seq<H> = Seq::empty();
        let n: usize = cmds.len();
        let mut i: usize = 0;
        while i < n
            invariant
                0 <= i <= n,
                n == cmds@.len(),
                all == names(cmds@),
                keys == names(cmds@.take(i as int)),
                values == handlers(cmds@.take(i as int)),
                pairs(table@, keys, values),
            decreases n - i,
        {
            let cmd = &cmds[i];
            let ghost own = cmd.keys();
            let ghost before = keys;
            let ghost total = before + own;
            proof {
                lemma_names_prefix(cmds@, i + 1);
                lemma_names_step(cmds@, i as int);
                assert(keys =~= total.take(keys.len() as int));
                assert(keys =~= all.take(keys.len() as int));
                assert(all[keys.len() as int] == total[keys.len() as int]);
            }
            let ghost prior = table@;
            if !Self::bind(&mut table, cmd.name, cmd.run) {
                proof {
                    lemma_repeat(all, keys);
                }
                return (Commands { table }, Some(Duplicate { name: String::from_str(cmd.name) }));
            }
            proof {
                lemma_pairs_push(prior, keys, values, cmd.name@, cmd.run);
                keys = keys.push(cmd.name@);
                values = values.push(cmd.run);
                assert(keys =~= before + own.take(1));
                assert(values =~= handlers(cmds@.take(i as int)) + Seq::new(1, |k: int| cmd.run));
            }
            let count: usize = cmd.aliases.len();
            let mut j: usize = 0;
            while j < count
                invariant
                    0 <= j <= count,
                    count == cmd.aliases@.len(),
                    own == cmd.keys(),
                    all == names(cmds@),
                    total == before + own,
                    total == all.take(total.len() as int),
                    total.len() <= all.len(),
                    keys == before + own.take(j + 1),
                    values == handlers(cmds@.take(i as int)) + Seq::new(
                        (j + 1) as nat,
                        |k: int| cmd.run,
                    ),
                    pairs(table@, keys, values),
                decreases count - j,
            {
                let alias: &'static str = cmd.aliases[j];
                proof {
                    assert(alias@ == own[j + 1]);
                    assert(keys =~= total.take(keys.len() as int));
                    assert(keys =~= all.take(keys.len() as int));
                    assert(all[keys.len() as int] == total[keys.len() as int]);
                }
                let ghost prior = table@;
                if !Self::bind(&mut table, alias, cmd.run) {
                    proof {
                        lemma_repeat(all, keys);
                    }
                    return (Commands { table }, Some(Duplicate { name: String::from_str(alias) }));
                }
                proof {
                    lemma_pairs_push(prior, keys, values, alias@, cmd.run);
                    keys = keys.push(alias@);
                    values = values.push(cmd.run);
                    assert(keys =~= before + own.take(j + 2));
                    assert(values =~= handlers(cmds@.take(i as int)) + Seq::new(
                        (j + 2) as nat,
                        |k: int| cmd.run,
                    ));
                }
                j += 1;
            }
            proof {
                assert(own.take(count + 1) =~= own);
            }
            i += 1;
        }
        proof {
            assert(cmds@.take(n as int) =~= cmds@);
            Self::lemma_pairs_bind(table@, cmds@);
        }
        (Commands { table }, None)
    }

    /// Builds the table of `cmds`, name first and then the aliases in their
    /// order, command after command. If a name or alias is met a second time,
    /// no table is built and the error holds that name.
    pub fn build(cmds: &[Command<H>]) -> (built: Result<Self, Duplicate>)
        ensures
            built is Ok <==> names(cmds@).no_duplicates(),
            match built {
                Ok(commands) => Self::binds(commands@, cmds@),
                Err(duplicate) => repeats_first(names(cmds@), duplicate.name@),
            },
    {
        let (commands, duplicate) = Self::fill(cmds);
        match duplicate {
            None => Ok(commands),
            Some(duplicate) => Err(duplicate),
        }
    }

    /// The table of `cmds`, which hold no name or alias twice.
    pub fn get(cmds: &[Command<H>]) -> (commands: Self)
        requires
            names(cmds@).no_duplicates(),
        ensures
            Self::binds(commands@, cmds@),
    {
        Self::fill(cmds).0
    }

    /// The handler of the command called `name`, if there is such a command.
    pub fn command(&self, name: &str) -> (handler: Option<H>)
        ensures
            handler == if self@.contains_key(name@) {
                Some(self@[name@])
            } else {
                None
            },
    {
        match self.table.get(name) {
            Some(run) => Some(*run),
            None => None,
        }
    }
}

} // verus!
