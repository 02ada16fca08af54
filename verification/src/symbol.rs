//! Interned names and the table that holds their text and keyword class.

use crate::span::Span;
use vstd::prelude::*;
use vstd::string::*;

verus! {

/// An interned string: an index into a [`SymbolTable`].
#[derive(Clone, Copy, Debug, PartialEq, Eq, Hash, Structural)]
pub struct Symbol {
    pub index: u32,
}

/// An identifier: a name and the place where it was written.
#[derive(Clone, Copy, Debug, PartialEq, Eq, Hash, Structural)]
pub struct Ident {
    pub name: Symbol,
    pub span: Span,
}

/// How the language treats a word.
#[derive(Clone, Copy, Debug, PartialEq, Eq, Hash, Structural)]
pub struct SymbolClass {
    /// The word cannot name anything in ordinary code.
    pub reserved: bool,
    /// The word cannot name anything inside an assembly block.
    pub yul_reserved: bool,
    /// The word names an elementary type.
    pub elementary_type: bool,
}

impl SymbolClass {
    /// The class of a word that is free everywhere.
    pub open spec fn spec_plain() -> SymbolClass {
        SymbolClass { reserved: false, yul_reserved: false, elementary_type: false }
    }

    pub open spec fn spec_is_reserved(&self, yul: bool) -> bool {
        if yul {
            self.yul_reserved
        } else {
            self.reserved
        }
    }

    #[verifier::when_used_as_spec(spec_plain)]
    pub fn plain() -> (c: SymbolClass)
        ensures
            c == SymbolClass::spec_plain(),
    {
        SymbolClass { reserved: false, yul_reserved: false, elementary_type: false }
    }

    /// Whether the word is reserved, inside an assembly block if `yul`.
    #[verifier::when_used_as_spec(spec_is_reserved)]
    pub fn is_reserved(&self, yul: bool) -> (r: bool)
        ensures
            r == self.spec_is_reserved(yul),
    {
        if yul {
            self.yul_reserved
        } else {
            self.reserved
        }
    }
}

/// What a table knows of one symbol, as a mathematical value.
pub struct SymbolInfo {
    pub text: Seq<char>,
    pub class: SymbolClass,
}

pub struct SymbolEntry {
    text: String,
    class: SymbolClass,
}

/// The interner: every symbol's text and class, by index.
pub struct SymbolTable {
    entries: Vec<SymbolEntry>,
}

impl View for SymbolTable {
    type V = Seq<SymbolInfo>;

    closed spec fn view(&self) -> Seq<SymbolInfo> {
        Seq::new(
            self.entries@.len(),
            |i: int| SymbolInfo { text: self.entries@[i].text@, class: self.entries@[i].class },
        )
    }
}

/// The text of `sym` in a table; empty for a symbol that the table lacks.
pub open spec fn symbol_text(table: Seq<SymbolInfo>, sym: Symbol) -> Seq<char> {
    if sym.index < table.len() {
        table[sym.index as int].text
    } else {
        Seq::empty()
    }
}

/// The class of `sym` in a table; plain for a symbol that the table lacks.
pub open spec fn symbol_class(table: Seq<SymbolInfo>, sym: Symbol) -> SymbolClass {
    if sym.index < table.len() {
        table[sym.index as int].class
    } else {
        SymbolClass::spec_plain()
    }
}

/// The index of the first entry with the given text, or the table's length.
pub open spec fn first_with_text(table: Seq<SymbolInfo>, text: Seq<char>) -> int
    decreases table.len(),
{
    if table.len() == 0 {
        0
    } else if table[0].text == text {
        0
    } else {
        1 + first_with_text(table.drop_first(), text)
    }
}

/// The symbol with the given text: the first that has it, if an index can
/// name it.
pub open spec fn symbol_with_text(table: Seq<SymbolInfo>, text: Seq<char>) -> Option<Symbol> {
    let first = first_with_text(table, text);
    if first < table.len() && first <= u32::MAX {
        Some(Symbol { index: first as u32 })
    } else {
        None
    }
}

pub proof fn lemma_first_with_text(table: Seq<SymbolInfo>, text: Seq<char>)
    ensures
        0 <= first_with_text(table, text) <= table.len(),
        first_with_text(table, text) < table.len() ==> table[first_with_text(
            table,
            text,
        )].text == text,
        forall|j: int| 0 <= j < first_with_text(table, text) ==> table[j].text != text,
    decreases table.len(),
{
    if table.len() > 0 && table[0].text != text {
        let rest = table.drop_first();
        lemma_first_with_text(rest, text);
        let k = first_with_text(rest, text);
        assert forall|j: int| 0 <= j < 1 + k implies table[j].text != text by {
            if j > 0 {
                assert(rest[j - 1] == table[j]);
            }
        }
        if k < rest.len() {
            assert(rest[k] == table[k + 1]);
        }
    }
}

/// The first index at which `text` stands is the only one below which it
/// stands nowhere.
pub proof fn lemma_first_with_text_unique(table: Seq<SymbolInfo>, text: Seq<char>, i: int)
    requires
        0 <= i <= table.len(),
        forall|j: int| 0 <= j < i ==> table[j].text != text,
        i < table.len() ==> table[i].text == text,
    ensures
        first_with_text(table, text) == i,
{
    lemma_first_with_text(table, text);
    let k = first_with_text(table, text);
    if k < i {
        assert(table[k].text != text);
    } else if i < k {
        assert(table[i].text != text);
    }
}

impl SymbolTable {
    /// A table without symbols.
    pub fn new() -> (t: SymbolTable)
        ensures
            t@ == Seq::<SymbolInfo>::empty(),
    {
        let t = SymbolTable { entries: Vec::new() };
        assert(t@ =~= Seq::<SymbolInfo>::empty());
        t
    }

    /// The number of symbols.
    pub fn len(&self) -> (n: usize)
        ensures
            n == self@.len(),
    {
        self.entries.len()
    }

    /// Finds the symbol with the given text: the first that has it.
    pub fn lookup(&self, text: &str) -> (r: Option<Symbol>)
        ensures
            r == symbol_with_text(self@, text@),
    {
        let wanted = String::from_str(text);
        let mut i: usize = 0;
        while i < self.entries.len()
            invariant
                i <= self.entries@.len(),
                wanted@ == text@,
                forall|j: int| 0 <= j < i ==> self@[j].text != text@,
            decreases self.entries@.len() - i,
        {
            if self.entries[i].text == wanted {
                proof {
                    lemma_first_with_text_unique(self@, text@, i as int);
                }
                if i <= u32::MAX as usize {
                    return Some(Symbol { index: i as u32 });
                } else {
                    return None;
                }
            }
            i = i + 1;
        }
        proof {
            lemma_first_with_text_unique(self@, text@, i as int);
        }
        None
    }

    /// Returns the symbol with the given text, adding it with the given class
    /// if the table does not hold it yet. A symbol that is already there keeps
    /// its class.
    pub fn intern(&mut self, text: &str, class: SymbolClass) -> (sym: Symbol)
        requires
            old(self)@.len() < u32::MAX,
        ensures
            sym.index == first_with_text(old(self)@, text@),
            sym.index < old(self)@.len() ==> final(self)@ == old(self)@,
            sym.index == old(self)@.len() ==> final(self)@ == old(self)@.push(
                SymbolInfo { text: text@, class },
            ),
            symbol_text(final(self)@, sym) == text@,
    {
        proof {
            lemma_first_with_text(self@, text@);
        }
        match self.lookup(text) {
            Some(sym) => sym,
            None => {
                let index = self.entries.len() as u32;
                self.entries.push(SymbolEntry { text: String::from_str(text), class });
                assert(self@ =~= old(self)@.push(SymbolInfo { text: text@, class }));
                Symbol { index }
            },
        }
    }

    /// The text of a symbol; empty for a symbol that the table lacks.
    pub fn text(&self, sym: Symbol) -> (s: &str)
        ensures
            s@ == symbol_text(self@, sym),
    {
        if (sym.index as usize) < self.entries.len() {
            self.entries[sym.index as usize].text.as_str()
        } else {
            proof {
                reveal_strlit("");
            }
            let s = "";
            assert(s@ =~= Seq::<char>::empty());
            s
        }
    }

    /// The class of a symbol; plain for a symbol that the table lacks.
    pub fn class(&self, sym: Symbol) -> (c: SymbolClass)
        ensures
            c == symbol_class(self@, sym),
    {
        if (sym.index as usize) < self.entries.len() {
            self.entries[sym.index as usize].class
        } else {
            SymbolClass::plain()
        }
    }
}

} // verus!
