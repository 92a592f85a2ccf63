//! The symbol table: a pool of strings referred to by index.

use vstd::prelude::*;

use crate::errors::ParseTprError;
use crate::xdr::{count_of, i32_step, lemma_strings_fail, strings_step, text_outcome, Step, XdrFile};

verus! {

/// The characters of each string.
pub open spec fn texts(s: Seq<String>) -> Seq<Seq<char>> {
    s.map_values(|x: String| x@)
}

/// Structure representing the Symbol Table.
pub struct SymTable {
    pub symbols: Vec<String>,
}

/// The string that the index stored at `p` names in `symbols`.
pub open spec fn symbol_step(b: Seq<u8>, p: int, symbols: Seq<Seq<char>>) -> Step<Seq<char>> {
    match i32_step(b, p) {
        Ok((index, e)) => if 0 <= index < symbols.len() {
            Ok((symbols[index as int], e))
        } else {
            Err(ParseTprError::IndexNotInSymTable(index))
        },
        Err(e) => Err(e),
    }
}

/// `n` consecutive symbol indices at `p`, resolved against `symbols`.
pub open spec fn symbols_step(b: Seq<u8>, p: int, symbols: Seq<Seq<char>>, n: int) -> Step<Seq<Seq<char>>>
    decreases n,
{
    if n <= 0 {
        Ok((seq![], p))
    } else {
        match symbols_step(b, p, symbols, n - 1) {
            Ok((ss, q)) => match symbol_step(b, q, symbols) {
                Ok((s, e)) => Ok((ss.push(s), e)),
                Err(e) => Err(e),
            },
            Err(e) => Err(e),
        }
    }
}

pub proof fn lemma_symbols_fail(b: Seq<u8>, p: int, symbols: Seq<Seq<char>>, k: int, n: int)
    requires
        0 <= k <= n,
        symbols_step(b, p, symbols, k) is Err,
    ensures
        symbols_step(b, p, symbols, n) == symbols_step(b, p, symbols, k),
    decreases n - k,
{
    if k < n {
        lemma_symbols_fail(b, p, symbols, k, n - 1);
    }
}

impl SymTable {
    /// Get `SymTable` from `XdrFile`: a count followed by that many strings.
    pub fn parse(xdrfile: &mut XdrFile, tpr_version: i32) -> (r: Result<Self, ParseTprError>)
        ensures
            final(xdrfile).bytes() == old(xdrfile).bytes(),
            match i32_step(old(xdrfile).bytes(), old(xdrfile).at()) {
                Err(e) => r == Err::<Self, ParseTprError>(e),
                Ok((n, q)) => match strings_step(old(xdrfile).bytes(), q, tpr_version, count_of(n)) {
                    Ok((ss, e)) => (r matches Ok(t) && texts(t.symbols@) == ss) && final(xdrfile).at() == e,
                    Err(e) => r == Err::<Self, ParseTprError>(e),
                },
            },
    {
        let ghost b = xdrfile.bytes();
        let ghost p = xdrfile.at();
        let symtab_len = match xdrfile.read_i32() {
            Ok(n) => n,
            Err(e) => return Err(e),
        };
        let ghost q = xdrfile.at();
        let mut symbols: Vec<String> = Vec::new();
        assert(texts(symbols@) =~= seq![]);
        let mut i: i32 = 0;
        while i < symtab_len
            invariant
                xdrfile.bytes() == b,
                b == old(xdrfile).bytes(),
                p == old(xdrfile).at(),
                i32_step(b, p) == Ok::<(i32, int), ParseTprError>((symtab_len, q)),
                0 <= i,
                i <= symtab_len || (i == 0 && symtab_len < 0),
                strings_step(b, q, tpr_version, i as int) == Ok::<(Seq<Seq<char>>, int), ParseTprError>(
                    (texts(symbols@), xdrfile.at()),
                ),
            decreases symtab_len - i,
        {
            let s = match xdrfile.read_string_body(tpr_version) {
                Ok(s) => s,
                Err(e) => {
                    proof {
                        lemma_strings_fail(b, q, tpr_version, i + 1, count_of(symtab_len));
                    }
                    return Err(e);
                },
            };
            let ghost before = symbols@;
            let ghost text = s@;
            symbols.push(s);
            assert(texts(symbols@) =~= texts(before).push(text));
            i = i + 1;
        }
        Ok(SymTable { symbols })
    }

    /// Read an `i32` index from `XdrFile` and resolve it against the table.
    pub fn symstring(&self, xdrfile: &mut XdrFile) -> (r: Result<String, ParseTprError>)
        ensures
            final(xdrfile).bytes() == old(xdrfile).bytes(),
            text_outcome(r, final(xdrfile).at(), symbol_step(old(xdrfile).bytes(), old(xdrfile).at(), texts(self.symbols@))),
    {
        let index = match xdrfile.read_i32() {
            Ok(i) => i,
            Err(e) => return Err(e),
        };
        if 0 <= index && (index as usize) < self.symbols.len() {
            Ok(self.symbols[index as usize].clone())
        } else {
            Err(ParseTprError::IndexNotInSymTable(index))
        }
    }
}

} // verus!
