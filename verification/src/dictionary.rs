//! The operations of the language and the dictionary that names them.

use vstd::prelude::*;
use crate::name::{canonical, canonical_name, lemma_capitals_are_canonical};

verus! {

/// A built-in operation. In what follows `x` is the top of the stack, `y`
/// the value below it and `z` the value below that; each operation takes
/// its operands off the stack before it puts anything back.
#[derive(Debug, Clone, Copy, PartialEq, Eq, Structural)]
pub enum Op {
    /// Takes `x` and prints it.
    Print,
    /// Takes `x` and `y`, puts back `x + y`.
    Add,
    /// Takes `x` and `y`, puts back `y - x`.
    Sub,
    /// Takes `x` and `y`, puts back `x * y`.
    Mul,
    /// Takes `x` and `y`, puts back `y / x`, rounded down.
    Div,
    /// Takes `x`, puts back `x` and `x` again.
    Dup,
    /// Takes `x`, `y` and `z`, puts back `y`, then `z`, then `x`: the top
    /// stays, and the two values below it change places.
    Rotate,
    /// Takes `x` and `y`, puts back `x`, then `y`, then `x`: a copy of the
    /// top comes to lie below the top two.
    Over,
    /// Takes `x` and `y`, puts back `y`, then `x`: both are where they
    /// were.
    Swap,
    /// Takes `x`.
    Drop,
}

/// The vocabulary of the language: each canonical name with its operation.
/// There are no other words.
pub open spec fn builtin_words() -> Map<Seq<char>, Op> {
    map![
        "."@ => Op::Print,
        "+"@ => Op::Add,
        "-"@ => Op::Sub,
        "*"@ => Op::Mul,
        "/"@ => Op::Div,
        "DUP"@ => Op::Dup,
        "ROT"@ => Op::Rotate,
        "OVER"@ => Op::Over,
        "SWAP"@ => Op::Swap,
        "DROP"@ => Op::Drop,
    ]
}

/// What a mapping holds under `key`, if anything.
pub open spec fn find(words: Map<Seq<char>, Op>, key: Seq<char>) -> Option<Op> {
    if words.contains_key(key) {
        Some(words[key])
    } else {
        None
    }
}

/// The operation that `word` names in `words`: the one held under the
/// word's canonical name. Upper and lower case make no difference.
pub open spec fn resolve(words: Map<Seq<char>, Op>, word: Seq<char>) -> Option<Op> {
    find(words, canonical_name(word))
}

/// The ten names of the vocabulary are ten different keys, each leading
/// to its own operation.
pub proof fn lemma_vocabulary()
    ensures
        find(builtin_words(), "."@) == Some(Op::Print),
        find(builtin_words(), "+"@) == Some(Op::Add),
        find(builtin_words(), "-"@) == Some(Op::Sub),
        find(builtin_words(), "*"@) == Some(Op::Mul),
        find(builtin_words(), "/"@) == Some(Op::Div),
        find(builtin_words(), "DUP"@) == Some(Op::Dup),
        find(builtin_words(), "ROT"@) == Some(Op::Rotate),
        find(builtin_words(), "OVER"@) == Some(Op::Over),
        find(builtin_words(), "SWAP"@) == Some(Op::Swap),
        find(builtin_words(), "DROP"@) == Some(Op::Drop),
{
    lemma_spellings();
    assert("."@[0] == '.' && "+"@[0] == '+' && "-"@[0] == '-' && "*"@[0] == '*' && "/"@[0] == '/');
    assert("DUP"@[0] == 'D' && "ROT"@[0] == 'R');
    assert("OVER"@[0] == 'O' && "SWAP"@[0] == 'S' && "DROP"@[0] == 'D');
    assert("."@.len() == 1 && "DUP"@.len() == 3 && "ROT"@.len() == 3);
    assert("OVER"@.len() == 4 && "SWAP"@.len() == 4 && "DROP"@.len() == 4);
}

/// Every key of the vocabulary is stored in its canonical form.
pub proof fn lemma_keys_are_canonical()
    ensures
        forall|key: Seq<char>| #[trigger]
            builtin_words().contains_key(key) ==> canonical_name(key) == key,
{
    lemma_spellings();
    assert forall|key: Seq<char>| #[trigger]
        builtin_words().contains_key(key) implies canonical_name(key) == key by {
        lemma_capitals_are_canonical(key);
    }
}

/// The characters of the ten names.
proof fn lemma_spellings()
    ensures
        "."@ == seq!['.'],
        "+"@ == seq!['+'],
        "-"@ == seq!['-'],
        "*"@ == seq!['*'],
        "/"@ == seq!['/'],
        "DUP"@ == seq!['D', 'U', 'P'],
        "ROT"@ == seq!['R', 'O', 'T'],
        "OVER"@ == seq!['O', 'V', 'E', 'R'],
        "SWAP"@ == seq!['S', 'W', 'A', 'P'],
        "DROP"@ == seq!['D', 'R', 'O', 'P'],
{
    reveal_strlit(".");
    reveal_strlit("+");
    reveal_strlit("-");
    reveal_strlit("*");
    reveal_strlit("/");
    reveal_strlit("DUP");
    reveal_strlit("ROT");
    reveal_strlit("OVER");
    reveal_strlit("SWAP");
    reveal_strlit("DROP");
    assert("."@ =~= seq!['.']);
    assert("+"@ =~= seq!['+']);
    assert("-"@ =~= seq!['-']);
    assert("*"@ =~= seq!['*']);
    assert("/"@ =~= seq!['/']);
    assert("DUP"@ =~= seq!['D', 'U', 'P']);
    assert("ROT"@ =~= seq!['R', 'O', 'T']);
    assert("OVER"@ =~= seq!['O', 'V', 'E', 'R']);
    assert("SWAP"@ =~= seq!['S', 'W', 'A', 'P']);
    assert("DROP"@ =~= seq!['D', 'R', 'O', 'P']);
}

/// One line of the dictionary.
struct Entry {
    name: String,
    op: Op,
}

/// The mapping that a list of entries stands for. Where a name occurs twice,
/// the later entry counts.
spec fn table(entries: Seq<Entry>) -> Map<Seq<char>, Op>
    decreases entries.len(),
{
    if entries.len() == 0 {
        Map::empty()
    } else {
        table(entries.drop_last()).insert(entries.last().name@, entries.last().op)
    }
}

/// A mapping from canonical names to operations. It is built whole and
/// offers no way to change it.
pub struct Dictionary {
    entries: Vec<Entry>,
}

impl View for Dictionary {
    type V = Map<Seq<char>, Op>;

    closed spec fn view(&self) -> Map<Seq<char>, Op> {
        table(self.entries@)
    }
}

fn enter(entries: &mut Vec<Entry>, name: &str, op: Op)
    ensures
        table(final(entries)@) == table(old(entries)@).insert(name@, op),
{
    entries.push(Entry { name: name.to_owned(), op });
    assert(entries@.drop_last() =~= old(entries)@);
}

impl Dictionary {
    /// The dictionary of the built-in words.
    pub fn new() -> (d: Dictionary)
        ensures
            d@ == builtin_words(),
    {
        let mut entries: Vec<Entry> = Vec::new();
        enter(&mut entries, ".", Op::Print);
        enter(&mut entries, "+", Op::Add);
        enter(&mut entries, "-", Op::Sub);
        enter(&mut entries, "*", Op::Mul);
        enter(&mut entries, "/", Op::Div);
        enter(&mut entries, "DUP", Op::Dup);
        enter(&mut entries, "ROT", Op::Rotate);
        enter(&mut entries, "OVER", Op::Over);
        enter(&mut entries, "SWAP", Op::Swap);
        enter(&mut entries, "DROP", Op::Drop);
        let d = Dictionary { entries };
        assert(d@ =~= builtin_words());
        d
    }

    /// Searches the entries for `key`, the last entry first.
    fn seek(&self, key: &String) -> (r: Option<Op>)
        ensures
            r == find(self@, key@),
    {
        let mut i: usize = self.entries.len();
        assert(self.entries@.take(i as int) =~= self.entries@);
        while i > 0
            invariant
                i <= self.entries.len(),
                find(self@, key@) == find(table(self.entries@.take(i as int)), key@),
            decreases i,
        {
            i = i - 1;
            assert(self.entries@.take(i + 1).drop_last() =~= self.entries@.take(i as int));
            if self.entries[i].name == *key {
                return Some(self.entries[i].op);
            }
        }
        None
    }

    /// The operation held under exactly `name`, with no case folding.
    pub fn get(&self, name: &str) -> (r: Option<Op>)
        ensures
            r == find(self@, name@),
    {
        self.seek(&name.to_owned())
    }

    /// The operation that `word` names, in whatever case it is written.
    pub fn lookup(&self, word: &str) -> (r: Option<Op>)
        ensures
            r == resolve(self@, word@),
    {
        self.seek(&canonical(word))
    }
}

} // verus!
