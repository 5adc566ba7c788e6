//! What name resolution found out about the modules of a program.
use vstd::prelude::*;
use crate::ast::{Program, SymbolId};
use crate::elaborate::state::{symbol_in, SymbolEntry};
use crate::registry::{first_where, lemma_first_where_skip};
use crate::text::{same_text, same_texts, texts};

verus! {

/// Whose names a glob import brings in. Those of the user hide those of the standard library.
#[derive(Debug, Clone, Copy, PartialEq, Eq, Structural)]
pub enum GlobTier {
    User,
    Std,
}

/// A name that a module imports by itself.
pub struct Binding {
    pub name: String,
    pub symbol_id: SymbolId,
}

/// A module whose names are all imported.
pub struct Glob {
    pub tier: GlobTier,
    pub module: Vec<String>,
}

/// What a module imports.
pub struct ModuleScope {
    pub module: Vec<String>,
    pub explicit: Vec<Binding>,
    pub globs: Vec<Glob>,
}

/// The declared symbols of a program, and what its modules import.
pub struct ResolvedNames {
    pub symbols: Vec<SymbolEntry>,
    pub scopes: Vec<ModuleScope>,
}

/// A module whose paths are resolved.
pub struct NormalizedModule {
    pub path: Vec<String>,
    pub program: Program,
}

/// The modules of a program, with resolved paths.
pub struct NormalizedModuleGraph {
    pub modules: Vec<NormalizedModule>,
}

/// What a module imports.
pub open spec fn scope_of(names: ResolvedNames, module: Seq<Seq<char>>) -> Option<ModuleScope> {
    first_where(names.scopes@, |s: ModuleScope| texts(s.module@) == module)
}

/// The symbol that a module imports by itself under a name.
pub open spec fn binding_of(scope: ModuleScope, name: Seq<char>) -> Option<Binding> {
    first_where(scope.explicit@, |b: Binding| b.name@ == name)
}

/// The symbol that the first of the glob imports of a tier brings in under a name.
pub open spec fn glob_symbol(
    names: ResolvedNames,
    globs: Seq<Glob>,
    tier: GlobTier,
    name: Seq<char>,
) -> Option<SymbolId>
    decreases globs.len(),
{
    if globs.len() == 0 {
        None
    } else {
        match symbol_in(names.symbols@, texts(globs[0].module@), name) {
            Some(id) => if globs[0].tier == tier {
                Some(id)
            } else {
                glob_symbol(names, globs.skip(1), tier, name)
            },
            None => glob_symbol(names, globs.skip(1), tier, name),
        }
    }
}

/// The symbol that a name denotes in a module: its own declaration, else one that it imports by
/// itself, else one from a glob import, of the user before the standard library.
pub open spec fn resolved_id(
    names: ResolvedNames,
    module: Seq<Seq<char>>,
    name: Seq<char>,
) -> Option<SymbolId> {
    match symbol_in(names.symbols@, module, name) {
        Some(id) => Some(id),
        None => match scope_of(names, module) {
            None => None,
            Some(scope) => match binding_of(scope, name) {
                Some(b) => Some(b.symbol_id),
                None => match glob_symbol(names, scope.globs@, GlobTier::User, name) {
                    Some(id) => Some(id),
                    None => glob_symbol(names, scope.globs@, GlobTier::Std, name),
                },
            },
        },
    }
}

/// The entry of a symbol.
pub open spec fn entry_of(names: ResolvedNames, id: SymbolId) -> Option<SymbolEntry> {
    first_where(names.symbols@, |e: SymbolEntry| e.id == id)
}

/// Whether a symbol, if there is one, is declared in a module.
pub open spec fn declared_in(
    names: ResolvedNames,
    id: Option<SymbolId>,
    module: Seq<Seq<char>>,
) -> bool {
    match id {
        Some(id) => match entry_of(names, id) {
            Some(e) => texts(e.module@) == module,
            None => false,
        },
        None => false,
    }
}

impl ResolvedNames {
    fn scope(&self, module: &Vec<String>) -> (r: Option<&ModuleScope>)
        ensures
            match r {
                Some(s) => scope_of(*self, texts(module@)) == Some(*s),
                None => scope_of(*self, texts(module@)) is None,
            },
    {
        let ghost want = texts(module@);
        let ghost p = |s: ModuleScope| texts(s.module@) == want;
        assert(self.scopes@.skip(0) =~= self.scopes@);
        let mut i: usize = 0;
        while i < self.scopes.len()
            invariant
                i <= self.scopes@.len(),
                want == texts(module@),
                p == (|s: ModuleScope| texts(s.module@) == want),
                first_where(self.scopes@, p) == first_where(self.scopes@.skip(i as int), p),
            decreases self.scopes@.len() - i,
        {
            proof {
                lemma_first_where_skip(self.scopes@, p, i as int);
            }
            if same_texts(&self.scopes[i].module, module) {
                return Some(&self.scopes[i]);
            }
            i += 1;
        }
        None
    }

    /// The symbol that a module declares under a name.
    pub fn symbol(&self, module: &Vec<String>, name: &str) -> (r: Option<SymbolId>)
        ensures
            r == symbol_in(self.symbols@, texts(module@), name@),
    {
        let list: &Vec<SymbolEntry> = &self.symbols;
        assert(list@.skip(0) =~= list@);
        let mut i: usize = 0;
        while i < list.len()
            invariant
                i <= list@.len(),
                *list == self.symbols,
                symbol_in(list@, texts(module@), name@) == symbol_in(
                    list@.skip(i as int),
                    texts(module@),
                    name@,
                ),
            decreases list@.len() - i,
        {
            assert(list@.skip(i as int)[0] == list@[i as int]);
            assert(list@.skip(i as int).skip(1) =~= list@.skip(i + 1));
            if same_texts(&list[i].module, module) && same_text(list[i].name.as_str(), name) {
                return Some(list[i].id);
            }
            i += 1;
        }
        None
    }

    fn glob(&self, globs: &Vec<Glob>, tier: GlobTier, name: &str) -> (r: Option<SymbolId>)
        ensures
            r == glob_symbol(*self, globs@, tier, name@),
    {
        assert(globs@.skip(0) =~= globs@);
        let mut i: usize = 0;
        while i < globs.len()
            invariant
                i <= globs@.len(),
                glob_symbol(*self, globs@, tier, name@) == glob_symbol(
                    *self,
                    globs@.skip(i as int),
                    tier,
                    name@,
                ),
            decreases globs@.len() - i,
        {
            assert(globs@.skip(i as int)[0] == globs@[i as int]);
            assert(globs@.skip(i as int).skip(1) =~= globs@.skip(i + 1));
            if globs[i].tier == tier {
                if let Some(id) = self.symbol(&globs[i].module, name) {
                    return Some(id);
                }
            }
            i += 1;
        }
        None
    }

    /// The symbol that a name denotes in a module.
    pub fn resolve_id(&self, module: &Vec<String>, name: &str) -> (r: Option<SymbolId>)
        ensures
            r == resolved_id(*self, texts(module@), name@),
    {
        if let Some(id) = self.symbol(module, name) {
            return Some(id);
        }
        let scope: &ModuleScope = match self.scope(module) {
            Some(s) => s,
            None => {
                return None;
            },
        };
        let ghost p = |b: Binding| b.name@ == name@;
        assert(scope.explicit@.skip(0) =~= scope.explicit@);
        let mut i: usize = 0;
        while i < scope.explicit.len()
            invariant
                i <= scope.explicit@.len(),
                symbol_in(self.symbols@, texts(module@), name@) is None,
                scope_of(*self, texts(module@)) == Some(*scope),
                p == (|b: Binding| b.name@ == name@),
                first_where(scope.explicit@, p) == first_where(scope.explicit@.skip(i as int), p),
            decreases scope.explicit@.len() - i,
        {
            proof {
                lemma_first_where_skip(scope.explicit@, p, i as int);
            }
            if same_text(scope.explicit[i].name.as_str(), name) {
                return Some(scope.explicit[i].symbol_id);
            }
            i += 1;
        }
        match self.glob(&scope.globs, GlobTier::User, name) {
            Some(id) => Some(id),
            None => self.glob(&scope.globs, GlobTier::Std, name),
        }
    }

    /// Whether a symbol, if there is one, is declared in a module.
    pub fn is_local(&self, id: Option<SymbolId>, module: &Vec<String>) -> (r: bool)
        ensures
            r == declared_in(*self, id, texts(module@)),
    {
        let wanted: SymbolId = match id {
            Some(wanted) => wanted,
            None => {
                return false;
            },
        };
        let ghost p = |e: SymbolEntry| e.id == wanted;
        assert(self.symbols@.skip(0) =~= self.symbols@);
        let mut i: usize = 0;
        while i < self.symbols.len()
            invariant
                i <= self.symbols@.len(),
                id == Some(wanted),
                p == (|e: SymbolEntry| e.id == wanted),
                first_where(self.symbols@, p) == first_where(self.symbols@.skip(i as int), p),
            decreases self.symbols@.len() - i,
        {
            proof {
                lemma_first_where_skip(self.symbols@, p, i as int);
            }
            if self.symbols[i].id == wanted {
                return same_texts(&self.symbols[i].module, module);
            }
            i += 1;
        }
        false
    }
}

} // verus!
